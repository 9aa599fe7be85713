use crate::nexus_uri::slash;
use crate::text::{
    chars_of, find, find_first, has_prefix, lemma_find_from, option_view, slice_string,
    starts_with, trim_bounds, trimmed,
};
use vstd::prelude::*;

verus! {

/// A pair of paths, a local one and a remote one, written
/// `<LOCAL>::<REMOTE>`. Both are absolute. Either may be left out; with the
/// remote one the separator may go too. No double slash stands anywhere.
#[derive(Clone, Debug, PartialEq)]
pub struct NexusPathSpec {
    local: Option<String>,
    remote: Option<String>,
}

/// Why a text is no path pair, or why a pair does not serve.
#[derive(Copy, Clone, Debug, PartialEq, Eq, Structural)]
pub enum PathSpecError {
    /// The text holds nothing but white space.
    Empty,
    /// The text holds a double slash.
    DoubleSlash,
    /// The local part is not an absolute path.
    LocalNotAbsolute,
    /// The remote part does not begin with a slash.
    RemoteNotAbsolute,
    /// The local part is needed and missing.
    LocalRequired,
    /// The local part is there and must not be.
    LocalForbidden,
    /// The remote part is needed and missing.
    RemoteRequired,
}

/// The two parts of a path pair as they were written, before either is
/// judged.
#[derive(Clone, Debug, PartialEq)]
pub struct RawPathSpec {
    pub local: String,
    pub remote: String,
}

/// What stands between the two parts.
pub open spec fn separator() -> Seq<char> {
    "::"@
}

pub open spec fn double_slash() -> Seq<char> {
    "//"@
}

/// The two parts of a text as they are written: the local part is what
/// stands before the first separator, without the white space around it,
/// and the remote part is all that follows the separator. A text without a
/// separator is a local part.
pub open spec fn split_spec(s: Seq<char>) -> Result<(Seq<char>, Seq<char>), PathSpecError> {
    if trimmed(s).len() == 0 {
        Err(PathSpecError::Empty)
    } else if find_first(s, double_slash()) is Some {
        Err(PathSpecError::DoubleSlash)
    } else {
        match find_first(s, separator()) {
            None => Ok((trimmed(s), Seq::<char>::empty())),
            Some(i) => Ok((trimmed(s.take(i)), s.skip(i + separator().len()))),
        }
    }
}

/// The pair that two written parts make. An empty part is a part left out;
/// a local part must be absolute, which `local_is_absolute` says, and a
/// remote part must begin with a slash. The local part is judged first.
pub open spec fn assemble_spec(local: Seq<char>, local_is_absolute: bool, remote: Seq<char>)
    -> Result<(Option<Seq<char>>, Option<Seq<char>>), PathSpecError> {
    if local.len() > 0 && !local_is_absolute {
        Err(PathSpecError::LocalNotAbsolute)
    } else if remote.len() > 0 && !has_prefix(remote, slash()) {
        Err(PathSpecError::RemoteNotAbsolute)
    } else {
        Ok(
            (
                if local.len() == 0 {
                    None
                } else {
                    Some(local)
                },
                if remote.len() == 0 {
                    None
                } else {
                    Some(remote)
                },
            ),
        )
    }
}

/// The pair that a text denotes, where `local_is_absolute` says whether its
/// local part is an absolute path.
pub open spec fn parse_spec(s: Seq<char>, local_is_absolute: bool) -> Result<
    (Option<Seq<char>>, Option<Seq<char>>),
    PathSpecError,
> {
    match split_spec(s) {
        Err(e) => Err(e),
        Ok((local, remote)) => assemble_spec(local, local_is_absolute, remote),
    }
}

/// Whether the platform takes `path` for an absolute path, as
/// `std::path::Path::is_absolute` says. Nothing is claimed of the answer:
/// it differs from one platform to another.
#[verifier::external_body]
fn path_is_absolute(path: &str) -> (r: bool) {
    std::path::Path::new(path).is_absolute()
}

impl View for NexusPathSpec {
    type V = (Option<Seq<char>>, Option<Seq<char>>);

    /// The local part and the remote part.
    closed spec fn view(&self) -> (Option<Seq<char>>, Option<Seq<char>>) {
        (option_view(self.local), option_view(self.remote))
    }
}

impl NexusPathSpec {
    /// Splits a text into its two parts.
    pub fn split(s: &str) -> (r: Result<RawPathSpec, PathSpecError>)
        ensures
            match split_spec(s@) {
                Ok((local, remote)) => r is Ok && r->Ok_0.local@ == local && r->Ok_0.remote@
                    == remote,
                Err(e) => r == Err::<RawPathSpec, PathSpecError>(e),
            },
    {
        proof {
            reveal_strlit("::");
            reveal_strlit("//");
        }
        let chars = chars_of(s);
        let n = chars.len();
        assert(s@.subrange(0, n as int) =~= s@);
        let (from, to) = trim_bounds(&chars, 0, n);
        if from == to {
            return Err(PathSpecError::Empty);
        }
        let twice = vec!['/', '/'];
        assert(twice@ =~= double_slash());
        if find(&chars, &twice).is_some() {
            return Err(PathSpecError::DoubleSlash);
        }
        let sep = vec![':', ':'];
        assert(sep@ =~= separator());
        match find(&chars, &sep) {
            None => Ok(RawPathSpec { local: slice_string(s, from, to), remote: String::new() }),
            Some(index) => {
                proof {
                    lemma_find_from(s@, separator(), 0);
                    assert(s@.take(index as int) =~= s@.subrange(0, index as int));
                }
                let (from, to) = trim_bounds(&chars, 0, index);
                Ok(
                    RawPathSpec {
                        local: slice_string(s, from, to),
                        remote: slice_string(s, index + 2, n),
                    },
                )
            },
        }
    }

    /// Makes a pair of two written parts; `local_is_absolute` says whether
    /// the local part is an absolute path.
    pub fn assemble(raw: RawPathSpec, local_is_absolute: bool) -> (r: Result<Self, PathSpecError>)
        ensures
            match assemble_spec(raw.local@, local_is_absolute, raw.remote@) {
                Ok(parts) => r is Ok && r->Ok_0@ == parts,
                Err(e) => r == Err::<Self, PathSpecError>(e),
            },
    {
        let RawPathSpec { local, remote } = raw;
        let local_chars = chars_of(local.as_str());
        let remote_chars = chars_of(remote.as_str());
        if local_chars.len() > 0 && !local_is_absolute {
            return Err(PathSpecError::LocalNotAbsolute);
        }
        let sep = vec!['/'];
        assert(sep@ =~= slash());
        if remote_chars.len() > 0 && !starts_with(&remote_chars, &sep) {
            return Err(PathSpecError::RemoteNotAbsolute);
        }
        let local = if local_chars.len() == 0 {
            None
        } else {
            Some(local)
        };
        let remote = if remote_chars.len() == 0 {
            None
        } else {
            Some(remote)
        };
        Ok(NexusPathSpec { local, remote })
    }

    /// Reads a pair from its text. Whether a local part is absolute is for
    /// the platform to say.
    pub fn from_str(s: &str) -> (r: Result<Self, PathSpecError>)
        ensures
            exists|local_is_absolute: bool|
                match #[trigger] parse_spec(s@, local_is_absolute) {
                    Ok(parts) => r is Ok && r->Ok_0@ == parts,
                    Err(e) => r == Err::<Self, PathSpecError>(e),
                },
    {
        match Self::split(s) {
            Err(e) => {
                assert(parse_spec(s@, true) == Err::<
                    (Option<Seq<char>>, Option<Seq<char>>),
                    PathSpecError,
                >(e));
                Err(e)
            },
            Ok(raw) => {
                let local_is_absolute = path_is_absolute(raw.local.as_str());
                let ghost parsed = parse_spec(s@, local_is_absolute);
                let r = Self::assemble(raw, local_is_absolute);
                assert(match parsed {
                    Ok(parts) => r is Ok && r->Ok_0@ == parts,
                    Err(e) => r == Err::<Self, PathSpecError>(e),
                });
                r
            },
        }
    }

    /// The local part, which must be there.
    pub fn local_or_err(&self) -> (r: Result<&str, PathSpecError>)
        ensures
            match self@.0 {
                Some(local) => r is Ok && r->Ok_0@ == local,
                None => r == Err::<&str, PathSpecError>(PathSpecError::LocalRequired),
            },
    {
        match &self.local {
            None => Err(PathSpecError::LocalRequired),
            Some(local) => Ok(local.as_str()),
        }
    }

    /// Succeeds where the local part is left out, as some uses demand.
    pub fn local_assert_none(&self) -> (r: Result<(), PathSpecError>)
        ensures
            r == if self@.0 is Some {
                Err::<(), PathSpecError>(PathSpecError::LocalForbidden)
            } else {
                Ok::<(), PathSpecError>(())
            },
    {
        if self.local.is_some() {
            return Err(PathSpecError::LocalForbidden);
        }
        Ok(())
    }

    /// The remote part, which must be there.
    pub fn remote_or_err(&self) -> (r: Result<&str, PathSpecError>)
        ensures
            match self@.1 {
                Some(remote) => r is Ok && r->Ok_0@ == remote,
                None => r == Err::<&str, PathSpecError>(PathSpecError::RemoteRequired),
            },
    {
        match &self.remote {
            None => Err(PathSpecError::RemoteRequired),
            Some(remote) => Ok(remote.as_str()),
        }
    }

    /// The remote part, or `default_value` where it is left out.
    pub fn remote_or<'a>(&'a self, default_value: &'a str) -> (r: &'a str)
        ensures
            r@ == match self@.1 {
                Some(remote) => remote,
                None => default_value@,
            },
    {
        match &self.remote {
            None => default_value,
            Some(remote) => remote.as_str(),
        }
    }

    /// The remote part, or the root where it is left out.
    pub fn remote_or_default(&self) -> (r: &str)
        ensures
            r@ == match self@.1 {
                Some(remote) => remote,
                None => slash(),
            },
    {
        proof {
            reveal_strlit("/");
            assert("/"@ =~= slash());
        }
        self.remote_or("/")
    }
}

} // verus!
