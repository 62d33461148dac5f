# The Judge

The Judge mediates submissions to an in-house code challenge. It generates
random test data for the selected challenge, runs the player's program on it,
times the run, checks the answers, records the score in the scoreboard
database and announces results on the team channel. It also prints the
scoreboard and describes the challenges.

## Usage

### Admin
- `--announcement release` announces a new release on the team channel
- `--announcement launch` announces the challenges that are open
- `--version` prints the version

### Scoreboard
- `-p` prints the scoreboard
- `-l <n>` keeps the first `n` entries
- `--unique players|binaries|language` keeps the first score per player, binary or language
- `--player <name>`, `--language <language>`, `--binary <binary>` keep only those scores
- `--sort player|binary|language|time` sorts by that column

Filters are applied in the order in which they are given.

### Running a test
- `-c <command>` the command that runs your program (required)
- `-L <language>` the language of your program (required)
- `-C <code>` the challenge (`-C ?` lists them)
- `-t` test mode: the result is not saved or published
- `-q` quiet mode: nothing is published to the team channel
- `-w <table>` wipes a scoreboard table (root only)

## Layout

`src/` is the verified library: the challenge catalogue and schedule, the
test-data generators and answer checks, the judging of replies and runs,
the plagiarism check, the spot prize rule, command-line configuration and
the announcement cards. `app/` is the program around it: the terminal menu,
the database, running the player's program and posting to the webhook.
