//! The interactive shell's validation rules: which commands a state
//! offers, how many arguments each takes, and which movement keys are
//! legal. Reading a line and printing help stay with the caller; the
//! token validation and the parse into a structured command are here.

use vstd::prelude::*;
use crate::NetAddr;

verus! {

/// One validated command, as the state machine consumes it. The listener
/// address of `CreateGame` is bound by the caller before the command is
/// formed.
#[derive(Clone, Debug, PartialEq, Eq)]
pub enum Command {
    CreateUser { user: String, passwd: String },
    Login { user: String, passwd: String },
    ChangePassword { old_passwd: String, new_passwd: String },
    Leaderboard,
    ListUsers,
    CreateGame { listener_addr: NetAddr },
    JoinGame { pacman: String },
    Move { dir: char },
    Latency,
    EndGame,
    Logout,
    Quit,
}

/// The mathematical value of a command.
pub enum CommandV {
    CreateUser { user: Seq<char>, passwd: Seq<char> },
    Login { user: Seq<char>, passwd: Seq<char> },
    ChangePassword { old_passwd: Seq<char>, new_passwd: Seq<char> },
    Leaderboard,
    ListUsers,
    CreateGame { listener_addr: NetAddr },
    JoinGame { pacman: Seq<char> },
    Move { dir: char },
    Latency,
    EndGame,
    Logout,
    Quit,
}

impl View for Command {
    type V = CommandV;

    open spec fn view(&self) -> CommandV {
        match self {
            Command::CreateUser { user, passwd } => CommandV::CreateUser {
                user: user@,
                passwd: passwd@,
            },
            Command::Login { user, passwd } => CommandV::Login {
                user: user@,
                passwd: passwd@,
            },
            Command::ChangePassword { old_passwd, new_passwd } => CommandV::ChangePassword {
                old_passwd: old_passwd@,
                new_passwd: new_passwd@,
            },
            Command::Leaderboard => CommandV::Leaderboard,
            Command::ListUsers => CommandV::ListUsers,
            Command::CreateGame { listener_addr } => CommandV::CreateGame {
                listener_addr: *listener_addr,
            },
            Command::JoinGame { pacman } => CommandV::JoinGame { pacman: pacman@ },
            Command::Move { dir } => CommandV::Move { dir: *dir },
            Command::Latency => CommandV::Latency,
            Command::EndGame => CommandV::EndGame,
            Command::Logout => CommandV::Logout,
            Command::Quit => CommandV::Quit,
        }
    }
}

/// The views of a token list.
pub open spec fn token_views(s: Seq<String>) -> Seq<Seq<char>> {
    Seq::new(s.len(), |i: int| s[i]@)
}

/// The command a valid token list stands for; the listener address is not
/// part of the tokens, so `CreateGame` carries the zero address until the
/// caller binds a socket and fills it in. Unknown words, wrong argument counts and movement keys
/// outside `wasd` parse to nothing.
pub open spec fn spec_parse(toks: Seq<Seq<char>>) -> Option<CommandV> {
    if toks.len() == 0 {
        None
    } else {
        let c = toks[0];
        if c == "novo"@ {
            if toks.len() == 3 {
                Some(CommandV::CreateUser { user: toks[1], passwd: toks[2] })
            } else {
                None
            }
        } else if c == "entra"@ {
            if toks.len() == 3 {
                Some(CommandV::Login { user: toks[1], passwd: toks[2] })
            } else {
                None
            }
        } else if c == "senha"@ {
            if toks.len() == 3 {
                Some(CommandV::ChangePassword { old_passwd: toks[1], new_passwd: toks[2] })
            } else {
                None
            }
        } else if c == "lideres"@ {
            if toks.len() == 1 {
                Some(CommandV::Leaderboard)
            } else {
                None
            }
        } else if c == "l"@ {
            if toks.len() == 1 {
                Some(CommandV::ListUsers)
            } else {
                None
            }
        } else if c == "inicia"@ {
            if toks.len() == 1 {
                Some(CommandV::CreateGame {
                    listener_addr: NetAddr { host: crate::HostAddr::V4(0), port: 0 },
                })
            } else {
                None
            }
        } else if c == "desafio"@ {
            if toks.len() == 2 {
                Some(CommandV::JoinGame { pacman: toks[1] })
            } else {
                None
            }
        } else if c == "move"@ {
            if toks.len() == 2 && (toks[1] == "w"@ || toks[1] == "a"@ || toks[1] == "s"@
                || toks[1] == "d"@) {
                Some(CommandV::Move { dir: toks[1][0] })
            } else {
                None
            }
        } else if c == "atraso"@ {
            if toks.len() == 1 {
                Some(CommandV::Latency)
            } else {
                None
            }
        } else if c == "encerra"@ {
            if toks.len() == 1 {
                Some(CommandV::EndGame)
            } else {
                None
            }
        } else if c == "sai"@ {
            if toks.len() == 1 {
                Some(CommandV::Logout)
            } else {
                None
            }
        } else if c == "tchau"@ {
            if toks.len() == 1 {
                Some(CommandV::Quit)
            } else {
                None
            }
        } else {
            None
        }
    }
}

/// Whether two strings hold the same characters.
fn str_eq(a: &String, b: &str) -> (r: bool)
    ensures
        r == (a@ == b@),
{
    let bo = b.to_owned();
    a.eq(&bo)
}

/// The shell of one client state: the words it accepts at its prompt.
pub struct Shell {
    allowed_commands: Vec<String>,
}

impl Shell {
    /// A shell accepting the given command words.
    pub fn new(allowed_commands: Vec<String>) -> (r: Shell)
        ensures
            token_views(r.allowed()) == token_views(allowed_commands@),
    {
        Shell { allowed_commands }
    }

    /// The accepted command words.
    pub closed spec fn allowed(self) -> Seq<String> {
        self.allowed_commands@
    }

    /// Whether the shell accepts this command word here.
    fn accepts(&self, word: &String) -> (r: bool)
        ensures
            r == exists|i: int| 0 <= i < self.allowed().len()
                && (#[trigger] self.allowed()[i])@ == word@,
    {
        let mut i: usize = 0;
        while i < self.allowed_commands.len()
            invariant
                i <= self.allowed().len(),
                self.allowed() == self.allowed_commands@,
                forall|j: int| 0 <= j < i ==> (#[trigger] self.allowed()[j])@ != word@,
            decreases self.allowed().len() - i,
        {
            if self.allowed_commands[i].eq(word) {
                return true;
            }
            i += 1;
        }
        false
    }

    /// Validates one line of whitespace-split tokens: the word must be
    /// accepted here and carry its exact argument count (and a legal
    /// movement key); anything else parses to nothing and the caller
    /// prompts again.
    pub fn parse(&self, tokens: &Vec<String>) -> (r: Option<Command>)
        ensures
            match r {
                Some(cmd) => Some(cmd@) == spec_parse(token_views(tokens@))
                    && tokens@.len() > 0
                    && exists|i: int| 0 <= i < self.allowed().len()
                        && (#[trigger] self.allowed()[i])@ == tokens@[0]@,
                None => spec_parse(token_views(tokens@)) is None
                    || tokens@.len() == 0
                    || !exists|i: int| 0 <= i < self.allowed().len()
                        && (#[trigger] self.allowed()[i])@ == tokens@[0]@,
            },
    {
        if tokens.len() == 0 {
            return None;
        }
        let word = &tokens[0];
        if !self.accepts(word) {
            return None;
        }
        let n = tokens.len();
        if str_eq(word, "novo") {
            if n == 3 {
                Some(Command::CreateUser {
                    user: tokens[1].clone(),
                    passwd: tokens[2].clone(),
                })
            } else {
                None
            }
        } else if str_eq(word, "entra") {
            if n == 3 {
                Some(Command::Login {
                    user: tokens[1].clone(),
                    passwd: tokens[2].clone(),
                })
            } else {
                None
            }
        } else if str_eq(word, "senha") {
            if n == 3 {
                Some(Command::ChangePassword {
                    old_passwd: tokens[1].clone(),
                    new_passwd: tokens[2].clone(),
                })
            } else {
                None
            }
        } else if str_eq(word, "lideres") {
            if n == 1 {
                Some(Command::Leaderboard)
            } else {
                None
            }
        } else if str_eq(word, "l") {
            if n == 1 {
                Some(Command::ListUsers)
            } else {
                None
            }
        } else if str_eq(word, "inicia") {
            if n == 1 {
                Some(Command::CreateGame {
                    listener_addr: NetAddr { host: crate::HostAddr::V4(0), port: 0 },
                })
            } else {
                None
            }
        } else if str_eq(word, "desafio") {
            if n == 2 {
                Some(Command::JoinGame { pacman: tokens[1].clone() })
            } else {
                None
            }
        } else if str_eq(word, "move") {
            if n == 2 {
                let key = &tokens[1];
                if str_eq(key, "w") || str_eq(key, "a") || str_eq(key, "s")
                    || str_eq(key, "d") {
                    proof {
                        reveal_strlit("w");
                        reveal_strlit("a");
                        reveal_strlit("s");
                        reveal_strlit("d");
                    }
                    let dir = key.as_str().get_char(0);
                    Some(Command::Move { dir })
                } else {
                    None
                }
            } else {
                None
            }
        } else if str_eq(word, "atraso") {
            if n == 1 {
                Some(Command::Latency)
            } else {
                None
            }
        } else if str_eq(word, "encerra") {
            if n == 1 {
                Some(Command::EndGame)
            } else {
                None
            }
        } else if str_eq(word, "sai") {
            if n == 1 {
                Some(Command::Logout)
            } else {
                None
            }
        } else if str_eq(word, "tchau") {
            if n == 1 {
                Some(Command::Quit)
            } else {
                None
            }
        } else {
            None
        }
    }
}

} // verus!
