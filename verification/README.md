# tomcat_chat

The logic of an interactive chat front end for a coding agent: the commands a user types, the plan
and its todo list, the questions put to the user, what a turn prints, the way back to a checkpoint,
and the start of a session. Every item of it is written in Verus and carries a contract that Verus
proves.

## Layout

- `src/` is the library. Where the chat has to wait for something outside (a file, a terminal, an
  agent, a package manager), the library decides what comes next as a function from a state and an
  event to the next step, and takes what came back as an argument.
  - `text`, `numerals`, `search`, `order`, `paths`: texts as sequences of characters.
  - `commands/`: reading and carrying out the commands.
  - `plan_runtime/`: the modes of a plan, plan files, todo lists, the tools that work on them, and
    the agents that read and check a plan.
  - `panels/`: the questions put to the user.
  - `permission/`, `context/`: what may be done, and how a session starts.
  - `run_loop/`: the turns of a chat.
  - `cli_turn_renderer`, `prompt`, `preflight`, `settings`: what the terminal shows, and what is
    installed beforehand.
- `app/` is the program around it: files, processes, the terminal, JSON and YAML.
- `tests/` runs the library on concrete values.

Laws that span several functions are public proof functions whose names start with `law_`.

Calls into other crates (`shell-words`, `serde_json`) and a few functions of the standard library
stand behind wrappers marked `external_body`; the comment above each says what is taken on trust.
