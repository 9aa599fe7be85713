use crate::text::{
    chars_of, find, find_first, has_prefix, lemma_find_from, option_view, slice_string,
    trim_start, white_space,
};
use vstd::prelude::*;

verus! {

/// `netrc_rs::Error`, carried through as it is: nothing is known of a
/// value of it.
#[verifier::external_type_specification]
#[verifier::external_body]
pub struct ExNetrcError(netrc_rs::Error);

/// One machine of a `.netrc` text; a machine without a name is the
/// default.
#[derive(Clone, Debug, PartialEq)]
pub struct NetrcMachine {
    pub name: Option<String>,
    pub login: Option<String>,
    pub password: Option<String>,
    pub account: Option<String>,
}

/// A machine as plain values.
pub struct MachineView {
    pub name: Option<Seq<char>>,
    pub login: Option<Seq<char>>,
    pub password: Option<Seq<char>>,
    pub account: Option<Seq<char>>,
}

/// Why no credentials were found.
#[derive(Copy, Clone, Debug, PartialEq, Eq, Structural)]
pub enum AuthError {
    /// The configured pair of user and password holds no colon.
    InvalidAuth,
    /// The `.netrc` text names no machine that is the host.
    HostNotFound,
}

impl View for NetrcMachine {
    type V = MachineView;

    open spec fn view(&self) -> MachineView {
        MachineView {
            name: option_view(self.name),
            login: option_view(self.login),
            password: option_view(self.password),
            account: option_view(self.account),
        }
    }
}

/// The machines of a list, as plain values.
pub open spec fn machine_views(machines: Seq<NetrcMachine>) -> Seq<MachineView> {
    machines.map_values(|m: NetrcMachine| m@)
}

/// The machines that `netrc_rs::Netrc::parse` reads from a `.netrc` text,
/// unknown entries not collected; `None` where it reads none.
pub uninterp spec fn netrc_machines(text: Seq<char>) -> Option<Seq<MachineView>>;

/// Calls `netrc_rs::Netrc::parse` and hands back the machines that it
/// read. The contract only gives that result its name.
#[verifier::external_body]
fn parse_netrc(text: &str) -> (r: Result<Vec<NetrcMachine>, netrc_rs::Error>)
    ensures
        r is Ok == netrc_machines(text@) is Some,
        r is Ok ==> machine_views(r->Ok_0@) == netrc_machines(text@)->0,
{
    let netrc = netrc_rs::Netrc::parse(text, false)?;
    Ok(
        netrc.machines.into_iter().map(
            |m| NetrcMachine {
                name: m.name,
                login: m.login,
                password: m.password,
                account: m.account,
            },
        ).collect(),
    )
}

pub open spec fn colon() -> Seq<char> {
    seq![':']
}

/// A line of a `.netrc` file that is a comment: a hash is the first thing
/// on it that is not white space.
pub open spec fn is_comment_line(line: Seq<char>) -> bool {
    has_prefix(trim_start(line), seq!['#'])
}

/// The lines of a `.netrc` file that are no comments, in their order.
pub open spec fn kept_lines(lines: Seq<Seq<char>>) -> Seq<Seq<char>> {
    lines.filter(|line: Seq<char>| !is_comment_line(line))
}

/// The lines as one text, with a line feed between any two of them.
pub open spec fn joined(lines: Seq<Seq<char>>) -> Seq<char>
    decreases lines.len(),
{
    if lines.len() == 0 {
        Seq::empty()
    } else if lines.len() == 1 {
        lines[0]
    } else {
        joined(lines.drop_last()) + seq!['\n'] + lines.last()
    }
}

/// The views of the lines.
pub open spec fn line_views(lines: Seq<String>) -> Seq<Seq<char>> {
    lines.map_values(|line: String| line@)
}

/// The machine of the list that bears this name.
pub open spec fn is_named(machine: NetrcMachine, host: Seq<char>) -> bool {
    machine.name is Some && machine.name->0@ == host
}

/// The user and the password that the text `<user>:<password>` holds: the
/// user ends at the first colon.
pub fn credentials_from_auth(auth: &str) -> (r: Result<(String, String), AuthError>)
    ensures
        match find_first(auth@, colon()) {
            Some(i) => r is Ok && r->Ok_0.0@ == auth@.take(i) && r->Ok_0.1@ == auth@.skip(i + 1),
            None => r == Err::<(String, String), AuthError>(AuthError::InvalidAuth),
        },
{
    let chars = chars_of(auth);
    let sep = vec![':'];
    assert(sep@ =~= colon());
    match find(&chars, &sep) {
        None => Err(AuthError::InvalidAuth),
        Some(index) => {
            proof {
                lemma_find_from(auth@, colon(), 0);
            }
            let n = chars.len();
            assert(index + 1 <= n);
            Ok((slice_string(auth, 0, index), slice_string(auth, index + 1, n)))
        },
    }
}

/// Whether a line of a `.netrc` file is a comment.
pub fn comment_line(line: &str) -> (r: bool)
    ensures
        r == is_comment_line(line@),
{
    let chars = chars_of(line);
    let mut i: usize = 0;
    assert(line@.skip(0) =~= line@);
    while i < chars.len() && white_space(chars[i])
        invariant
            chars@ == line@,
            i <= chars@.len(),
            trim_start(line@) == trim_start(line@.skip(i as int)),
        decreases chars@.len() - i,
    {
        assert(line@.skip(i as int).drop_first() =~= line@.skip(i + 1));
        i += 1;
    }
    let ghost rest = line@.skip(i as int);
    assert(trim_start(rest) == rest);
    if i < chars.len() {
        assert(rest.subrange(0, 1) =~= seq![chars@[i as int]]);
        assert(seq![chars@[i as int]][0] == chars@[i as int] && seq!['#'][0] == '#');
        chars[i] == '#'
    } else {
        false
    }
}

/// The text of a `.netrc` file without its comment lines.
pub fn netrc_text(lines: &Vec<String>) -> (text: String)
    ensures
        text@ == joined(kept_lines(line_views(lines@))),
{
    let mut text = String::new();
    let mut kept: usize = 0;
    let mut i: usize = 0;
    let ghost all = line_views(lines@);
    assert(all.take(0) =~= Seq::<Seq<char>>::empty());
    while i < lines.len()
        invariant
            i <= lines@.len(),
            all == line_views(lines@),
            kept == kept_lines(all.take(i as int)).len(),
            kept <= i,
            text@ == joined(kept_lines(all.take(i as int))),
        decreases lines@.len() - i,
    {
        let ghost seen = all.take(i as int);
        let ghost before = kept_lines(seen);
        proof {
            assert(all.take(i + 1) =~= seen.push(lines@[i as int]@));
            seen.lemma_filter_push(lines@[i as int]@, |line: Seq<char>| !is_comment_line(line));
            reveal_strlit("\n");
            assert("\n"@ =~= seq!['\n']);
        }
        let line = lines[i].as_str();
        if !comment_line(line) {
            proof {
                let after = before.push(line@);
                assert(after.drop_last() =~= before);
                assert(after.last() == line@);
                if before.len() == 0 {
                    assert(text@ + line@ =~= line@);
                }
            }
            if kept > 0 {
                text.append("\n");
            }
            text.append(line);
            kept += 1;
        }
        i += 1;
    }
    assert(all.take(lines@.len() as int) =~= all);
    text
}

/// The machines of a `.netrc` text, where it can be read.
pub fn read_netrc(text: &str) -> (r: Option<Vec<NetrcMachine>>)
    ensures
        r is Some == netrc_machines(text@) is Some,
        r is Some ==> machine_views(r->0@) == netrc_machines(text@)->0,
{
    match parse_netrc(text) {
        Ok(machines) => Some(machines),
        Err(_) => None,
    }
}

/// The place of the first machine that bears the name `host`.
pub fn find_machine(machines: &Vec<NetrcMachine>, host: &str) -> (r: Option<usize>)
    ensures
        match r {
            Some(i) => i < machines@.len() && is_named(machines@[i as int], host@) && forall|
                k: int,
            | 0 <= k < i ==> !is_named(#[trigger] machines@[k], host@),
            None => forall|k: int| 0 <= k < machines@.len() ==> !is_named(
                #[trigger] machines@[k],
                host@,
            ),
        },
{
    let wanted = host.to_owned();
    let mut i: usize = 0;
    while i < machines.len()
        invariant
            i <= machines@.len(),
            wanted@ == host@,
            forall|k: int| 0 <= k < i ==> !is_named(#[trigger] machines@[k], host@),
        decreases machines@.len() - i,
    {
        match &machines[i].name {
            Some(name) => {
                if *name == wanted {
                    return Some(i);
                }
            },
            None => {},
        }
        i += 1;
    }
    None
}

/// The user and the password of a machine that has both.
pub fn machine_credentials(machine: &NetrcMachine) -> (r: (String, String))
    requires
        machine.login is Some,
        machine.password is Some,
    ensures
        r.0@ == machine.login->0@,
        r.1@ == machine.password->0@,
{
    match (&machine.login, &machine.password) {
        (Some(login), Some(password)) => (login.clone(), password.clone()),
        _ => (String::new(), String::new()),
    }
}

/// The user and the password that the machines hold for `host`: those of
/// the first machine that bears its name.
pub fn credentials_for(machines: &Vec<NetrcMachine>, host: &str) -> (r: Result<
    (String, String),
    AuthError,
>)
    requires
        forall|k: int|
            0 <= k < machines@.len() && is_named(#[trigger] machines@[k], host@) ==> machines@[k].login is Some
                && machines@[k].password is Some,
    ensures
        r is Ok == exists|k: int| 0 <= k < machines@.len() && is_named(#[trigger] machines@[k], host@),
        r is Ok ==> exists|k: int|
            {
                &&& 0 <= k < machines@.len()
                &&& is_named(#[trigger] machines@[k], host@)
                &&& forall|j: int| 0 <= j < k ==> !is_named(#[trigger] machines@[j], host@)
                &&& r->Ok_0.0@ == machines@[k].login->0@
                &&& r->Ok_0.1@ == machines@[k].password->0@
            },
        r is Err ==> r->Err_0 == AuthError::HostNotFound,
{
    match find_machine(machines, host) {
        Some(i) => Ok(machine_credentials(&machines[i])),
        None => Err(AuthError::HostNotFound),
    }
}

} // verus!
