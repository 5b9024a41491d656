# ifuse-rs

Mounts the files of an iOS device on Linux (FUSE) and Windows (WinFsp): the media directory, the
AFC2 root, the Documents directory of an application, or its complete container.

The library under `src/` is written in Verus and holds what is decided and computed:

- `transport`, `afc`: the AFC file protocol. Requests become packets, replies become answers, and
  long reads and writes are cut into packets.
- `inode`: the inode numbers of the paths that the kernel knows.
- `filesystem`: the operations of FUSE, each as a series of requests and an answer.
- `windows_filesystem`, `reparse`: the same for WinFsp, with its paths, times and reparse points.
- `worker`: the order in which the commands of a mount are served and answered.
- `options`, `address`, `mount`, `apps`, `backend`: what is mounted, where and how, how the device is
  reached, how a mount is taken down, and which applications share files.
- `printed`: how an address is printed, and that it is read back.
- `error`: everything that can go wrong, and the errno or NTSTATUS for it.
- `text`, `utf16`, `le`, `sorting`: the ground they stand on.

A function states in its `ensures` what it returns, over the spec functions next to it. What holds of
several functions together is stated by the proof functions whose names begin with `law_`.

`app/` is the program: the command line, the thread that owns the connection to the device, the FUSE
and WinFsp sessions, and the words that an error is shown to the user with. It performs what the
library asks for and hands back what came of it.
