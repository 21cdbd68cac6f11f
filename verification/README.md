# johnbox

A private server for party games that are played with phones: rooms, the two protocols that games
and phones speak to them, a cache of what the games' own server serves, speech, and a screen for the
operator.

* `src/` is the library, written in Verus. It decides everything: what a message does to a room and
  who is told, which resource a request means and whether another server is asked for it, which
  voice a player speaks with, what the screen shows. Every function states in its contract what it
  decides, and `src/laws.rs`, with the proof functions beside the code, states what holds of the
  library as a whole.
* `app/` is the server around it: sockets, files, other servers, the terminal, and the drawing of
  doodles, which is floating point.
* `tests/` runs the library.

Messages are not answered by the library itself. It hands back effects (what to send to whom, how the
room changes, what to draw), and the server does them in their order.

The server reads its configuration from `config.json`. The grammars of JavaScript and CSS that the
cache reads sources with are linked to the server.
