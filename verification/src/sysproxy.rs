//! Plans for pointing the operating system's proxy setting at the local
//! SOCKS listener: the `networksetup` invocations on macOS and the `reg`
//! invocations on Windows, and the reading of the macOS service list.
use vstd::prelude::*;

verus! {

/// The arguments of one command.
pub open spec fn args_view(c: Vec<String>) -> Seq<Seq<char>> {
    c@.map_values(|a: String| a@)
}

/// The arguments of a list of commands.
pub open spec fn commands_view(cs: Seq<Vec<String>>) -> Seq<Seq<Seq<char>>> {
    cs.map_values(|c: Vec<String>| args_view(c))
}

/// The texts of a list of strings.
pub open spec fn texts_view(ls: Seq<String>) -> Seq<Seq<char>> {
    ls.map_values(|l: String| l@)
}

/// A line without the carriage return that ends it, if any.
pub open spec fn strip_cr(l: Seq<char>) -> Seq<char> {
    if l.len() > 0 && l.last() == '\r' {
        l.drop_last()
    } else {
        l
    }
}

/// `i` is the position of the first line feed in `s`.
pub open spec fn first_newline(s: Seq<char>, i: int) -> bool {
    &&& 0 <= i < s.len()
    &&& s[i] == '\n'
    &&& forall|j: int| 0 <= j < i ==> s[j] != '\n'
}

/// The lines of a text: split at each line feed, a carriage return before a
/// line feed dropped, no empty line after a final line feed.
pub open spec fn text_lines(s: Seq<char>) -> Seq<Seq<char>>
    decreases s.len(),
{
    if s.len() == 0 {
        seq![]
    } else if exists|i: int| first_newline(s, i) {
        let i = choose|i: int| first_newline(s, i);
        seq![strip_cr(s.take(i))] + text_lines(s.skip(i + 1))
    } else {
        seq![s]
    }
}

proof fn lemma_text_lines_step(s: Seq<char>, start: int, i: int)
    requires
        0 <= start <= i < s.len(),
        s[i] == '\n',
        forall|j: int| start <= j < i ==> s[j] != '\n',
    ensures
        text_lines(s.skip(start)) == seq![strip_cr(s.subrange(start, i))] + text_lines(
            s.skip(i + 1),
        ),
{
    let t = s.skip(start);
    assert(first_newline(t, i - start));
    let k = choose|k: int| first_newline(t, k);
    if k < i - start {
        assert(t[k] == s[start + k]);
    } else if k > i - start {
        assert(t[i - start] == s[i]);
    }
    assert(t.take(i - start) =~= s.subrange(start, i));
    assert(t.skip(i - start + 1) =~= s.skip(i + 1));
}

proof fn lemma_text_lines_last(s: Seq<char>, start: int)
    requires
        0 <= start <= s.len(),
        forall|j: int| start <= j < s.len() ==> s[j] != '\n',
    ensures
        text_lines(s.skip(start)) == if start == s.len() {
            Seq::<Seq<char>>::empty()
        } else {
            seq![s.skip(start)]
        },
{
    let t = s.skip(start);
    if exists|i: int| first_newline(t, i) {
        let i = choose|i: int| first_newline(t, i);
        assert(t[i] == s[start + i]);
    }
}

fn strip_cr_str(line: &str) -> (r: String)
    ensures
        r@ == strip_cr(line@),
{
    let n = line.unicode_len();
    if n > 0 && line.get_char(n - 1) == '\r' {
        line.substring_char(0, n - 1).to_owned()
    } else {
        assert(line@.subrange(0, n as int) =~= line@);
        line.substring_char(0, n).to_owned()
    }
}

/// Splits a text into its lines.
pub fn split_lines(text: &str) -> (r: Vec<String>)
    ensures
        texts_view(r@) == text_lines(text@),
{
    let n = text.unicode_len();
    let mut out: Vec<String> = Vec::new();
    let mut start: usize = 0;
    let mut i: usize = 0;
    assert(text@.skip(0) =~= text@);
    while i < n
        invariant
            n == text@.len(),
            start <= i <= n,
            forall|j: int| start <= j < i ==> text@[j] != '\n',
            text_lines(text@) == texts_view(out@) + text_lines(text@.skip(start as int)),
        decreases n - i,
    {
        if text.get_char(i) == '\n' {
            proof {
                lemma_text_lines_step(text@, start as int, i as int);
            }
            let line = strip_cr_str(text.substring_char(start, i));
            let ghost before = out@;
            out.push(line);
            proof {
                assert(texts_view(out@) =~= texts_view(before) + seq![line@]);
                assert(texts_view(out@) + text_lines(text@.skip(i + 1)) =~= texts_view(before)
                    + (seq![strip_cr(text@.subrange(start as int, i as int))] + text_lines(
                    text@.skip(i + 1),
                )));
            }
            start = i + 1;
        }
        i = i + 1;
    }
    proof {
        lemma_text_lines_last(text@, start as int);
    }
    if start < n {
        let line = text.substring_char(start, n).to_owned();
        let ghost before = out@;
        out.push(line);
        proof {
            assert(text@.subrange(start as int, n as int) =~= text@.skip(start as int));
            assert(texts_view(out@) =~= texts_view(before) + seq![line@]);
        }
    } else {
        assert(texts_view(out@) + Seq::<Seq<char>>::empty() =~= texts_view(out@));
    }
    out
}

/// A line of the macOS service list that names an enabled service: not
/// empty and not starting with `*` (which marks a disabled service).
pub open spec fn is_service_line(l: Seq<char>) -> bool {
    l.len() > 0 && l[0] != '*'
}

/// The services named in the output of `networksetup -listallnetworkservices`:
/// every line after the first (a header) that names an enabled service.
pub open spec fn listed_services(listing: Seq<char>) -> Seq<Seq<char>> {
    let ls = text_lines(listing);
    if ls.len() == 0 {
        seq![]
    } else {
        ls.skip(1).filter(|l: Seq<char>| is_service_line(l))
    }
}

/// Reads the output of `networksetup -listallnetworkservices`.
pub fn network_services(listing: &str) -> (r: Vec<String>)
    ensures
        texts_view(r@) == listed_services(listing@),
{
    let lines = split_lines(listing);
    let ghost ls = texts_view(lines@);
    let ghost pred = |l: Seq<char>| is_service_line(l);
    let mut out: Vec<String> = Vec::new();
    if lines.len() == 0 {
        return out;
    }
    let mut k: usize = 1;
    assert(ls.subrange(1, 1) =~= Seq::<Seq<char>>::empty());
    proof {
        reveal_with_fuel(Seq::<_>::filter, 1);
    }
    while k < lines.len()
        invariant
            ls == texts_view(lines@),
            ls.len() == lines@.len(),
            1 <= k <= lines@.len(),
            pred == (|l: Seq<char>| is_service_line(l)),
            texts_view(out@) == ls.subrange(1, k as int).filter(pred),
        decreases lines@.len() - k,
    {
        proof {
            reveal_with_fuel(Seq::<_>::filter, 1);
            assert(ls.subrange(1, k + 1).drop_last() =~= ls.subrange(1, k as int));
            assert(ls[k as int] == lines@[k as int]@);
        }
        let line = &lines[k];
        let keep = line.as_str().unicode_len() > 0 && line.as_str().get_char(0) != '*';
        if keep {
            let ghost before = out@;
            out.push(line.clone());
            proof {
                assert(texts_view(out@) =~= texts_view(before).push(ls[k as int]));
            }
        }
        k = k + 1;
    }
    proof {
        assert(ls.subrange(1, ls.len() as int) =~= ls.skip(1));
    }
    out
}

/// The `networksetup` arguments for one service: when enabling, set the
/// SOCKS proxy to `host:port` and switch it on; when disabling, switch it off.
pub open spec fn macos_service_commands(
    enable: bool,
    host: Seq<char>,
    port: Seq<char>,
    service: Seq<char>,
) -> Seq<Seq<Seq<char>>> {
    if enable {
        seq![
            seq!["-setsocksfirewallproxy"@, service, host, port],
            seq!["-setsocksfirewallproxystate"@, service, "on"@],
        ]
    } else {
        seq![seq!["-setsocksfirewallproxystate"@, service, "off"@]]
    }
}

/// The `networksetup` arguments for all services, in order.
pub open spec fn macos_commands(
    enable: bool,
    host: Seq<char>,
    port: Seq<char>,
    services: Seq<Seq<char>>,
) -> Seq<Seq<Seq<char>>>
    decreases services.len(),
{
    if services.len() == 0 {
        seq![]
    } else {
        macos_commands(enable, host, port, services.drop_last()) + macos_service_commands(
            enable,
            host,
            port,
            services.last(),
        )
    }
}

/// Every service gets its own commands, in the order listed, each carrying
/// the service's name exactly as listed as its second argument: when
/// enabling, two commands per service (set the proxy to `host:port`, switch
/// it on); when disabling, one (switch it off).
pub proof fn lemma_macos_commands_per_service(
    enable: bool,
    host: Seq<char>,
    port: Seq<char>,
    services: Seq<Seq<char>>,
)
    ensures
        enable ==> macos_commands(enable, host, port, services).len() == 2 * services.len(),
        enable ==> forall|i: int|
            0 <= i < services.len() ==> macos_commands(enable, host, port, services)[2 * i]
                == seq!["-setsocksfirewallproxy"@, #[trigger] services[i], host, port]
                && macos_commands(enable, host, port, services)[2 * i + 1] == seq![
                "-setsocksfirewallproxystate"@,
                services[i],
                "on"@,
            ],
        !enable ==> macos_commands(enable, host, port, services).len() == services.len(),
        !enable ==> forall|i: int|
            0 <= i < services.len() ==> macos_commands(enable, host, port, services)[i] == seq![
                "-setsocksfirewallproxystate"@,
                #[trigger] services[i],
                "off"@,
            ],
    decreases services.len(),
{
    if services.len() > 0 {
        let prev = services.drop_last();
        lemma_macos_commands_per_service(enable, host, port, prev);
        let c0 = macos_commands(enable, host, port, prev);
        let c = macos_commands(enable, host, port, services);
        assert(c == c0 + macos_service_commands(enable, host, port, services.last()));
        assert forall|i: int| 0 <= i < services.len() implies (enable ==> c[2 * i]
            == seq!["-setsocksfirewallproxy"@, #[trigger] services[i], host, port] && c[2 * i + 1]
            == seq!["-setsocksfirewallproxystate"@, services[i], "on"@]) && (!enable ==> c[i]
            == seq!["-setsocksfirewallproxystate"@, services[i], "off"@]) by {
            if i < prev.len() {
                assert(services[i] == prev[i]);
            }
        }
    }
}

/// The `networksetup` invocations that turn the SOCKS proxy of every service
/// on (at `host:port`) or off, to be run in order.
pub fn macos_proxy_commands(enable: bool, host: &str, port: &str, services: &Vec<String>) -> (r: Vec<
    Vec<String>,
>)
    ensures
        commands_view(r@) == macos_commands(enable, host@, port@, texts_view(services@)),
{
    let mut out: Vec<Vec<String>> = Vec::new();
    let mut k: usize = 0;
    while k < services.len()
        invariant
            k <= services@.len(),
            commands_view(out@) == macos_commands(
                enable,
                host@,
                port@,
                texts_view(services@.subrange(0, k as int)),
            ),
        decreases services@.len() - k,
    {
        let svc = &services[k];
        let ghost before = out@;
        if enable {
            let mut c1: Vec<String> = Vec::new();
            c1.push(String::from_str("-setsocksfirewallproxy"));
            c1.push(svc.clone());
            c1.push(String::from_str(host));
            c1.push(String::from_str(port));
            let mut c2: Vec<String> = Vec::new();
            c2.push(String::from_str("-setsocksfirewallproxystate"));
            c2.push(svc.clone());
            c2.push(String::from_str("on"));
            proof {
                assert(args_view(c1) =~= seq!["-setsocksfirewallproxy"@, svc@, host@, port@]);
                assert(args_view(c2) =~= seq!["-setsocksfirewallproxystate"@, svc@, "on"@]);
            }
            out.push(c1);
            out.push(c2);
        } else {
            let mut c: Vec<String> = Vec::new();
            c.push(String::from_str("-setsocksfirewallproxystate"));
            c.push(svc.clone());
            c.push(String::from_str("off"));
            proof {
                assert(args_view(c) =~= seq!["-setsocksfirewallproxystate"@, svc@, "off"@]);
            }
            out.push(c);
        }
        proof {
            let prefix = texts_view(services@.subrange(0, k + 1));
            assert(prefix.drop_last() =~= texts_view(services@.subrange(0, k as int)));
            assert(prefix.last() == svc@);
            assert(commands_view(out@) =~= commands_view(before) + macos_service_commands(
                enable,
                host@,
                port@,
                svc@,
            ));
        }
        k = k + 1;
    }
    proof {
        assert(services@.subrange(0, services@.len() as int) =~= services@);
    }
    out
}

/// The `reg` arguments that point the Windows Internet settings at a SOCKS
/// proxy at `listen_addr` and enable it, or disable the proxy.
pub open spec fn windows_commands(enable: bool, listen_addr: Seq<char>) -> Seq<Seq<Seq<char>>> {
    let key = "HKCU\\Software\\Microsoft\\Windows\\CurrentVersion\\Internet Settings"@;
    if enable {
        seq![
            seq![
                "add"@,
                key,
                "/v"@,
                "ProxyServer"@,
                "/t"@,
                "REG_SZ"@,
                "/d"@,
                "socks="@ + listen_addr,
                "/f"@,
            ],
            seq!["add"@, key, "/v"@, "ProxyEnable"@, "/t"@, "REG_DWORD"@, "/d"@, "1"@, "/f"@],
        ]
    } else {
        seq![seq!["add"@, key, "/v"@, "ProxyEnable"@, "/t"@, "REG_DWORD"@, "/d"@, "0"@, "/f"@]]
    }
}

fn reg_add(name: &str, kind: &str, data: String) -> (c: Vec<String>)
    ensures
        args_view(c) == seq![
            "add"@,
            "HKCU\\Software\\Microsoft\\Windows\\CurrentVersion\\Internet Settings"@,
            "/v"@,
            name@,
            "/t"@,
            kind@,
            "/d"@,
            data@,
            "/f"@,
        ],
{
    let mut c: Vec<String> = Vec::new();
    c.push(String::from_str("add"));
    c.push(String::from_str("HKCU\\Software\\Microsoft\\Windows\\CurrentVersion\\Internet Settings"));
    c.push(String::from_str("/v"));
    c.push(String::from_str(name));
    c.push(String::from_str("/t"));
    c.push(String::from_str(kind));
    c.push(String::from_str("/d"));
    c.push(data);
    c.push(String::from_str("/f"));
    assert(args_view(c) =~= seq![
        "add"@,
        "HKCU\\Software\\Microsoft\\Windows\\CurrentVersion\\Internet Settings"@,
        "/v"@,
        name@,
        "/t"@,
        kind@,
        "/d"@,
        data@,
        "/f"@,
    ]);
    c
}

/// The `reg` invocations for the Windows proxy setting, to be run in order.
pub fn windows_proxy_commands(enable: bool, listen_addr: &str) -> (r: Vec<Vec<String>>)
    ensures
        commands_view(r@) == windows_commands(enable, listen_addr@),
{
    let mut out: Vec<Vec<String>> = Vec::new();
    if enable {
        let value = String::from_str("socks=").concat(listen_addr);
        out.push(reg_add("ProxyServer", "REG_SZ", value));
        out.push(reg_add("ProxyEnable", "REG_DWORD", String::from_str("1")));
    } else {
        out.push(reg_add("ProxyEnable", "REG_DWORD", String::from_str("0")));
    }
    assert(commands_view(out@) =~= windows_commands(enable, listen_addr@));
    out
}

} // verus!
