//! Tilde expansion: `~`, `~+`, `~-`, `~N`, `~+N`, `~-N` and `~user` at the
//! start of a word.

use crate::text::option_text;
use crate::shell::Shell;
use crate::sys::variables::get_user_home;
use crate::text::{chars_of, parse_usize, string_of_range, unsigned_of};
use vstd::prelude::*;

verus! {

/// Whether `c` ends the prefix of a tilde word.
pub open spec fn ends_prefix(c: char) -> bool {
    c == '/' || c == '$'
}

/// The length of the run at the front of `s` that holds neither `/` nor `$`.
pub open spec fn prefix_len(s: Seq<char>) -> nat
    decreases s.len(),
{
    if s.len() == 0 || ends_prefix(s[0]) {
        0
    } else {
        1 + prefix_len(s.drop_first())
    }
}

/// A text with `rest` behind it, where there is a text.
pub open spec fn followed_by(head: Option<Seq<char>>, rest: Seq<char>) -> Option<Seq<char>> {
    match head {
        Some(h) => Some(h + rest),
        None => None,
    }
}

impl Shell {
    /// What a word that starts with a tilde expands to.
    ///
    /// The prefix is what stands between the tilde and the first `/` or `$`;
    /// the rest is what follows the prefix.
    /// - An empty prefix is the home directory, with the rest behind it.
    /// - `+` is the working directory, or `?` where none is known, with the
    ///   rest behind it.
    /// - `-` is the string bound to `OLDPWD`, with the rest behind it.
    /// - A number, alone or behind `+`, is the directory that many places above
    ///   the bottom of the directory stack; behind `-`, that many places below
    ///   its top; with the rest behind it.
    /// - Any other prefix names a user; no account database is at hand, so
    ///   it expands to nothing.
    /// A word that does not start with a tilde expands to nothing.
    pub open spec fn spec_tilde(&self, input: Seq<char>) -> Option<Seq<char>> {
        if input.len() == 0 || input[0] != '~' {
            None
        } else {
            let body = input.drop_first();
            let k = prefix_len(body) as int;
            let prefix = body.take(k);
            let rest = body.skip(k);
            if prefix.len() == 0 {
                followed_by(option_text(self.environment.home), rest)
            } else if prefix == seq!['+'] {
                match self.environment.pwd {
                    Some(pwd) => Some(pwd@ + rest),
                    None => Some(seq!['?'] + rest),
                }
            } else if prefix == seq!['-'] {
                followed_by(self.variables.spec_get_str("OLDPWD"@), rest)
            } else {
                let from_top = prefix[0] == '-';
                let numeral = if prefix[0] == '+' || prefix[0] == '-' {
                    prefix.drop_first()
                } else {
                    prefix
                };
                match unsigned_of(numeral, usize::MAX as nat) {
                    Some(num) => followed_by(
                        if from_top {
                            self.directory_stack.spec_from_top(num)
                        } else {
                            self.directory_stack.spec_from_bottom(num)
                        },
                        rest,
                    ),
                    None => None,
                }
            }
        }
    }

    /// Expands a word that starts with a tilde.
    pub fn tilde(&self, input: &str) -> (r: Option<String>)
        ensures
            option_text(r) == self.spec_tilde(input@),
    {
        let v = chars_of(input);
        if v.len() == 0 || v[0] != '~' {
            return None;
        }
        let ghost body = v@.drop_first();
        let mut end: usize = 1;
        proof {
            assert(v@.skip(1) =~= body);
        }
        while end < v.len() && !(v[end] == '/' || v[end] == '$')
            invariant
                1 <= end <= v.len(),
                body == v@.drop_first(),
                prefix_len(body) == (end - 1) + prefix_len(v@.skip(end as int)),
            decreases v.len() - end,
        {
            assert(v@.skip(end as int).drop_first() =~= v@.skip(end + 1));
            end += 1;
        }
        let ghost k = prefix_len(body) as int;
        let ghost prefix = body.take(k);
        let ghost rest_text = body.skip(k);
        proof {
            assert(k == end - 1);
            assert(prefix =~= v@.subrange(1, end as int));
            assert(rest_text =~= v@.subrange(end as int, v.len() as int));
        }
        let rest = string_of_range(&v, end, v.len());
        if end == 1 {
            match &self.environment.home {
                Some(home) => Some(home.clone().concat(rest.as_str())),
                None => None,
            }
        } else if end == 2 && v[1] == '+' {
            assert(prefix =~= seq!['+']);
            match &self.environment.pwd {
                Some(pwd) => Some(pwd.clone().concat(rest.as_str())),
                None => {
                    let mut s = String::new();
                    s.push('?');
                    assert(s@ =~= seq!['?']);
                    Some(s.concat(rest.as_str()))
                },
            }
        } else if end == 2 && v[1] == '-' {
            assert(prefix =~= seq!['-']);
            match self.variables.get_str("OLDPWD") {
                Some(oldpwd) => Some(oldpwd.concat(rest.as_str())),
                None => None,
            }
        } else {
            proof {
                assert(prefix != seq!['+']) by {
                    if prefix == seq!['+'] {
                        assert(prefix.len() == 1);
                        assert(prefix[0] == '+');
                    }
                }
                assert(prefix != seq!['-']) by {
                    if prefix == seq!['-'] {
                        assert(prefix.len() == 1);
                        assert(prefix[0] == '-');
                    }
                }
            }
            let neg = v[1] == '-';
            let from: usize = if v[1] == '+' || v[1] == '-' {
                2
            } else {
                1
            };
            let numeral = string_of_range(&v, from, end);
            proof {
                assert(v@.subrange(2, end as int) =~= prefix.drop_first());
            }
            match parse_usize(numeral.as_str()) {
                Some(num) => {
                    let dir = if neg {
                        self.directory_stack.dir_from_top(num)
                    } else {
                        self.directory_stack.dir_from_bottom(num)
                    };
                    match dir {
                        Some(path) => Some(path.clone().concat(rest.as_str())),
                        None => None,
                    }
                },
                None => {
                    let user = string_of_range(&v, 1, end);
                    match get_user_home(user.as_str()) {
                        Some(home) => Some(home.concat(rest.as_str())),
                        None => None,
                    }
                },
            }
        }
    }
}

} // verus!
