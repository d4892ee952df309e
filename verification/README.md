# gugu（咕咕）

A lightweight QQ chat client: a native Slint window (software renderer) over a
OneBot v11 forward-WS endpoint. The logic is a Verus library whose behaviour is
stated in contracts and proved; the window, the socket, the clock and the file
system are ordinary Rust around it.

## Layout

| Path | What it holds |
|---|---|
| `src/text.rs`, `src/decimal.rs`, `src/order.rs` | characters, blank tests, decimal integers, the order of names, sorting and picking |
| `src/json.rs` | JSON values as plain data; `serde_json` reads and writes the text |
| `src/onebot.rs` | frames in: events, replies, the roster; the authenticated URL |
| `src/transport.rs` | frames out, one session step by step, the reconnect loop, the action queue |
| `src/onebot_laws.rs` | what holds of the client across calls |
| `src/convo.rs` | transcripts per conversation, grouping, unread counts |
| `src/stickers.rs`, `src/sticker_laws.rs` | stickers from file contents, sticker packs from directory listings |
| `src/chat.rs`, `src/chat_laws.rs` | rows, clock, avatars, the sidebar, where a draft goes |
| `src/player.rs`, `src/player_laws.rs` | the sticker picker and the frame player |
| `tests/` | the library run on concrete values, with the real outside crates |
| `app/` | the program: `main`, the window, the transport thread, file reading |

## Running

- `data/config.toml` present: connect to the OneBot endpoint (`ws_url`,
  `access_token`).
- absent: demo mode.

## What is trusted

Calls into other crates stand behind small functions marked
`external_body`, each with a doc comment that names the outside function and
says what is taken on trust: reading and writing JSON text (`serde_json`),
decoding GIF and still images (`image`), making a `slint::Image`, the uppercase
mapping of a character, and `String::push`.
