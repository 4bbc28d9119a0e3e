# toolmind

The decision core of a tool-using terminal agent, written in Rust and verified with Verus.

A language model answers the user or calls a tool. The agent finds the call in the answer, decides
whether it is run, checks what the tool is asked to do, lets the host do it, and tells the model what
came of it. Everything that is decided or computed on the way is in the library under `src/`, with
contracts that Verus proves. What touches the disk, the network, other programs or the screen is in
`app/`, which hands plain values to the library and takes plain values back.

## Layout

| Module | What it holds |
| --- | --- |
| `text`, `split`, `numbers`, `order` | texts as sequences of characters, decimal numbers, sorting |
| `json`, `codec`, `bytes`, `reply` | JSON values, their text through `serde_json`, bytes read as text, the shape of replies |
| `paths`, `files` | which paths a tool may touch, and the tools on files |
| `command`, `host`, `playbook` | which programs may be run, their limits and reports, the host |
| `git`, `gh` | command lines of `git` and `gh` |
| `websocket` | a short exchange over a WebSocket |
| `ask` | questions to the user |
| `plan`, `panel`, `journal` | the plan, its progress and its panel, and the files of lines |
| `extract`, `stream`, `thinking` | the call in an answer, and the answer as it comes in |
| `retry`, `agent`, `chain` | repeated requests, the conversation, and the steps of a turn |
| `registry`, `tools`, `prompt`, `config` | the tools, what the model is told, and where it is reached |
| `gui` | automation of the screen, which exists on Windows |
| `vision` | from the output of Tesseract to a description of an image |

Functions named `law_*` state what holds of several functions together.

## What is trusted

Verus believes the contracts of the functions marked `#[verifier::external_body]` and of one
`assume_specification`. They stand for calls into `serde_json` and `url`, for the parts of
`std::path` that depend on the platform, and for `String::push`, `str::to_lowercase`,
`String::from_utf8` and `String::from_utf8_lossy`. Each says above it what is claimed and what is left open.

## Running it

The agent reads `API_KEY`, `API_URL` and `MODEL` from the environment or from `.env`. The names
`NVIDIA_API_KEY` and `NVIDIA_MODEL` are read where the general ones are missing. The text of
`skill_personality.md` goes into the first message to the model, where the file is there.
On Windows `app/` needs the crates `windows` and `screenshots` as well.
