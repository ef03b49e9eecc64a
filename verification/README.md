# chat_rs

The verified core of a small group chat with voice calls: a desktop client,
a relay server for the calls, and the shared wire formats.

`src/` is the library, written in Verus and proved:

- `chat`, `timeline`, `typing`, `channel_list`, `navigation`, `connection`,
  `input`: the client's chat screen (each channel's posts in order, the
  user's own posts reconciled with the server's copies, who is typing, the
  editor and delete prompt, notifications, the channel list, the screens,
  key bindings and event sources);
- `voice_link`, `voice_actor`, `capture`, `playout`, `framing`, `devices`: the client's
  call (reconnects, presence cues, mute state, device switches, the audio
  bookkeeping that surrounds the floating-point sample work);
- `room`, `negotiation`, `sockets`, `server_api`, `auth`: the server's voice
  rooms and offer rounds, stream fan-out, request handlers and sign-in mail;
- `convert`, `posts`, `domain`, `config`, `routing`, `ffi`, `text`: wire
  conversions, history paging and grouping, shared values and naming rules.

`tests/` exercises the library on concrete values. `app/` is the thin
desktop glue that stays outside the proofs: settings files, configuration
from the environment and the floating-point audio arithmetic.
