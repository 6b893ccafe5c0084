# socks6_app

The verified core of a desktop SOCKS5-to-SOCKS6 tunnelling proxy client.
Local applications speak SOCKS5 to the proxy; the proxy opens a TLS tunnel to
a server and speaks SOCKS6 through it.

* `src/` — the library, verified with Verus:
  * `profiles` — saved server profiles and the ordered store (insert-or-replace,
    lookup by id, removal), with laws on lookup after each operation;
  * `keys` — the base64 tunnel secret and the hexadecimal short id: decoding,
    generation;
  * `socks5` — the local SOCKS5 server handshake as a step machine over the bytes
    read so far, request decoding and reply encoding;
  * `socks6` — the SOCKS6 client handshake with the server as a step machine,
    request encoding, reply reading, and the law that the destination a local
    client asks for is the one requested from the server (IPv4 and IPv6
    destinations always; a domain when it is not an IP literal, the IPv6
    reading of a domain being std's, made in `app/`);
  * `engine` — start, stop and status decisions of the proxy engine;
  * `tunnel` — retry policy for the TLS handshake;
  * `sysproxy` — command plans for the macOS and Windows proxy settings;
  * `text`, `wire` — decimal, IPv4, hexadecimal and byte-level helpers;
  * `bindings` — the calls into std, `base64` and `rand` whose contracts are
    trusted.
* `app/` — the Tauri shell: commands, file storage, sockets, TLS, processes.
* `tests/` — tests of the library.
