# Starcom

A tmux client for the desktop: it attaches to sessions on other machines over
SSH in tmux's control mode, shows their panes as terminals, and passes input on.

The library in `src/` holds everything that can be decided without a network or
a window, and Verus proves it against its contracts:

- `model`, `ids`, `input`, `command`: sizes, names, user actions, and the tmux
  commands they become. Whatever is typed stays an argument.
- `reconnect`, `fault`, `ssh`, `clock`: how a failure is classified, what is
  retried, and after how long.
- `sessions`, `inspect`, `exchange`, `interact`: listing and creating sessions,
  reading what tmux reports, matching replies to commands, guarded transactions.
- `desktop`, `snapshot`, `demo`: one connection, its bounded queue of input, and
  the steps of its worker.
- `width`, `screen`, `terminal`, `links`: the terminal emulator, what it is fed, and
  what is read off it.
- `keys`, `gesture`, `pane`, `paint`: keyboard and pointer, and what cells look
  like.
- `workspace`, `store`, `window`, `wake_flag`: tabs, what is kept of them, and
  when a frame is painted.
- `sftp`, `cli`, `text`: uploads, command lines, text.

The emulator is Alacritty's; `screen` says what is relied on of it. `app/` is the
program round the library: SSH, threads, the window and its painting.
