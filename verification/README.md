# divvun_worker_tts

A text-to-speech HTTP worker. The verified library in `src/` holds the
request and response logic; `app/` is the server around it.

- `src/address.rs`: the listener address, `tcp://host:port` or `unix://path`.
- `src/language.rs`: the `Accept-Language` header and the country its tags point to.
- `src/client.rs`: the client address, from `X-Real-IP`, `X-Forwarded-For` or the peer.
- `src/response.rs`: request errors and their HTTP answers, collecting pipeline
  output, audio format negotiation.
- `src/encoding.rs`: UTF-16 and Base64 encoding of the processed text header.
- `src/wav.rs`: 16-bit WAV framing of the speech audio.
- `src/page.rs`: the web page template, voice options and bundle file names.
- `src/json.rs`: JSON objects of string fields.
- `src/debug.rs`: what the interactive text debugger prints.
- `src/text.rs`: character-sequence helpers (splitting, trimming, decimal numbers).
- `app/main.rs`: command line, HTTP server, pipelines, GeoIP lookup and the
  floating-point audio handling.
- `app/page.rs`: the page template served on `/`.
