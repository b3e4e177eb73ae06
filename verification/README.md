# Voxtype Meeting Transcriber: capture service

A per-user background service that records meetings, splits what is said into
utterances, has them transcribed by a speech-to-text program on this machine, and keeps
sessions, audio and transcripts below its data directory. A bar widget or the command
line talks to it over a socket.

- `src/` is the library: every rule of the service, with contracts that Verus proves.
  What it takes from other crates stands behind declarations whose doc comments say what
  is believed of each.
- `app/` is the program around it: the command line, files, the socket, the database, the
  audio server, and the resampling of audio, which is floating-point work.
- `tests/` runs the library on concrete values.

## Modules

| module | what it holds |
| --- | --- |
| `audio` | sample formats, device choice, the dialogue with the audio server, speech detection |
| `capture` | utterances from frames, one task per source, the course of a session |
| `cleanup`, `disk` | which audio may go, and when capture must stop |
| `commands`, `control`, `daemon` | the command line's requests, the socket's answers, the course of the daemon |
| `config`, `paths`, `distro`, `doctor`, `service` | settings, places, and the state of the machine |
| `encode` | FLAC and WAV |
| `storage` | sessions, chunks, jobs and events as tables, and recovery at a start |
| `transcription` | the providers, retries, and the work on a job |
| `transcript`, `session_status`, `runtime` | what is shown of a meeting |
| `document`, `error`, `sorting`, `text`, `timeutil`, `tree` | what the others share |

Public proof functions named `law_...` state what holds of several operations together.
