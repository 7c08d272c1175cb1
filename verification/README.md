# tiktok_proxy

A privacy-preserving TikTok front end: pages and media are fetched by the
server, and media reach the browser only through its `/proxy` route.

`src/` is the verified library:

- `text` – character-level helpers: Unicode trimming, prefix/suffix/infix
  tests, ASCII lower-casing, each with its contract over `Seq<char>`.
- `cookie` – the media cookie string (`name=value` pairs joined by `"; "`):
  trimming cookie values, replacing the `tt_chain_token` pair, the `Cookie`
  header for CDN requests, tokens taken from `Set-Cookie`, and which cookie
  is seeded at which origin of the client's cookie jar.
- `cookie_laws` – what those operations keep: exactly one chain-token pair,
  last; updating twice with one token is updating once; a per-request token
  gives the header that an update would store.
- `encoding` – percent-encoding and decoding through the `urlencoding` crate,
  stated exactly over UTF-8 bytes.
- `proxy` – which URLs the proxy fetches (through `url::Url::parse`), the
  upstream request for a `/proxy` query and its headers (fixed ones, the
  cookie, the client's `Range` and nothing else), upstream status handling
  and the answer's headers.
- `pages` – the TikTok page URLs for users, videos and tags, and the headers
  of a page request.
- `types` – users, videos, tags and their local `/proxy` links.
- `link_laws` – the links split back into their fields: encoded values hold
  no `&`, `=` or `#`, and each field decodes to the value it was built from.
- `config` – settings from environment values, with `PORT` parsed as `u16`.
- `error` – the error type.

`app/` is the unverified service around it: environment reading, the
`reqwest` client and its cookie jar, the shared media cookies, page fetches,
the axum routes, serde copies of the page types and the askama video page.
The TikTok page parser is passed in by the caller of the fetch functions.
