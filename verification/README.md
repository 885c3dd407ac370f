# Siphon

Siphon is a desktop download manager: it takes a media link, finds out what is there, downloads
it, and converts it to MP4, MP3 or WAV. Downloads run through the tools `yt-dlp` and `ffmpeg`,
which the program gets for itself on its first start.

`src/` holds the decisions of the program, verified with Verus. `app/` is the program around
them: the window, the files, the processes and the network.

| Module | What it decides |
| --- | --- |
| `links`, `request`, `probe` | which links are accepted, the job a request becomes, what is known of a medium |
| `direct` | a download straight from a media file's own link, step by step |
| `session`, `tool` | a download with the download tool: arguments, output, silence, end |
| `worker`, `job`, `store` | the work on a job, the steps of a job, the list of all jobs |
| `files`, `names` | the files a download leaves, and names that never take another file's place |
| `engine`, `install`, `checksum`, `archive` | the binaries: where they are, how they are got, verified and unpacked |
| `settings`, `sniffer`, `launch` | what the user sets, the stream finder, how the program was started |
| `text`, `number`, `clock`, `report` | strings, numbers, times and messages |
| `foreign` | everything that is called without proof, with what is relied on |

Downloads and installations are state machines: each takes an event, changes its state and names
the next action, which `app/` performs. An event that does not answer the last action changes
nothing.
