use crate::text::{
    chars_of, concat3, ends_with, find, find_first, has_prefix, has_suffix, occurs_at,
    slice_string, starts_with, trim_bounds, trimmed,
};
use vstd::prelude::*;

verus! {

/// A place in a repository, written `::/<REPO_ID><REMOTE_PATH>`: the
/// repository's id holds no slash, and the remote path begins with one.
#[derive(Clone, Debug, PartialEq)]
pub struct NexusRemoteUri {
    pub repo_id: String,
    pub repo_path: String,
}

/// Why a text is no remote URI, or why a URI does not serve.
#[derive(Copy, Clone, Debug, PartialEq, Eq, Structural)]
pub enum UriError {
    /// The text does not begin with `::/`.
    MissingStart,
    /// No slash follows the repository's id.
    MissingSeparator,
    /// Nothing but white space stands before the first slash.
    EmptyRepoId,
    /// A directory was asked for, and the path does not end in a slash.
    DirectoryExpected,
}

/// What every remote URI begins with.
pub open spec fn uri_start() -> Seq<char> {
    "::/"@
}

pub open spec fn slash() -> Seq<char> {
    seq!['/']
}

/// The repository's id and the remote path that a text denotes, or why it
/// denotes none: behind the start, the id runs up to the first slash,
/// without the white space around it, and the path from that slash on.
pub open spec fn parse_uri(s: Seq<char>) -> Result<(Seq<char>, Seq<char>), UriError> {
    if !has_prefix(s, uri_start()) {
        Err(UriError::MissingStart)
    } else {
        let rest = s.skip(uri_start().len() as int);
        match find_first(rest, slash()) {
            None => Err(UriError::MissingSeparator),
            Some(i) => {
                let id = trimmed(rest.take(i));
                if id.len() == 0 {
                    Err(UriError::EmptyRepoId)
                } else {
                    Ok((id, rest.skip(i)))
                }
            },
        }
    }
}

/// The text of an error.
pub open spec fn uri_error_text(e: UriError) -> Seq<char> {
    match e {
        UriError::MissingStart => "Nexus remote URI must start with '::/'"@,
        UriError::MissingSeparator => "Missing separator '/' in remote path specification"@,
        UriError::EmptyRepoId => "Repository ID must be specified"@,
        UriError::DirectoryExpected => "Directory path expected"@,
    }
}

/// A URI that is written out reads back as it was: the text of a URI whose
/// id is not empty, holds no slash and no white space at its ends, and
/// whose path begins with a slash, denotes that id and that path.
pub proof fn law_uri_text_reads_back(uri: NexusRemoteUri)
    requires
        uri.repo_id@.len() > 0,
        !uri.repo_id@.contains('/'),
        trimmed(uri.repo_id@) == uri.repo_id@,
        has_prefix(uri.repo_path@, slash()),
    ensures
        parse_uri(uri.text()) == Ok::<(Seq<char>, Seq<char>), UriError>(
            (uri.repo_id@, uri.repo_path@),
        ),
{
    let id = uri.repo_id@;
    let path = uri.repo_path@;
    let s = uri.text();
    let rest = s.skip(uri_start().len() as int);
    let n = id.len() as int;
    assert(s.subrange(0, uri_start().len() as int) =~= uri_start());
    assert(rest =~= id + path);
    assert(path.subrange(0, 1) == slash());
    assert(rest.subrange(n, n + 1) =~= path.subrange(0, 1));
    assert(occurs_at(rest, slash(), n));
    crate::text::lemma_find_from(rest, slash(), 0);
    let found = find_first(rest, slash());
    assert(found is Some);
    if found->0 < n {
        assert(rest.subrange(found->0, found->0 + 1)[0] == '/');
        assert(id[found->0] == '/');
        assert(false);
    }
    assert(found->0 == n);
    assert(rest.take(n) =~= id);
    assert(rest.skip(n) =~= path);
}

impl UriError {
    /// The text of the error.
    pub fn message(&self) -> (out: String)
        ensures
            out@ == uri_error_text(*self),
    {
        match self {
            UriError::MissingStart => "Nexus remote URI must start with '::/'".to_owned(),
            UriError::MissingSeparator => "Missing separator '/' in remote path specification".to_owned(),
            UriError::EmptyRepoId => "Repository ID must be specified".to_owned(),
            UriError::DirectoryExpected => "Directory path expected".to_owned(),
        }
    }
}

impl NexusRemoteUri {
    /// The URI denotes a directory: its path ends in a slash.
    pub open spec fn denotes_dir(&self) -> bool {
        has_suffix(self.repo_path@, slash())
    }

    /// The URI as a text.
    pub open spec fn text(&self) -> Seq<char> {
        uri_start() + self.repo_id@ + self.repo_path@
    }

    /// Reads a URI from its text.
    pub fn from_str(s: &str) -> (r: Result<Self, UriError>)
        ensures
            match parse_uri(s@) {
                Ok((id, path)) => r is Ok && r->Ok_0.repo_id@ == id && r->Ok_0.repo_path@ == path,
                Err(e) => r == Err::<Self, UriError>(e),
            },
            r is Ok ==> r->Ok_0.repo_id@.len() > 0 && has_prefix(r->Ok_0.repo_path@, slash()),
    {
        proof {
            reveal_strlit("::/");
        }
        let chars = chars_of(s);
        let start = vec![':', ':', '/'];
        assert(start@ =~= uri_start());
        if !starts_with(&chars, &start) {
            return Err(UriError::MissingStart);
        }
        let rest = slice_string(s, 3, chars.len());
        let rest_chars = chars_of(rest.as_str());
        let sep = vec!['/'];
        assert(sep@ =~= slash());
        match find(&rest_chars, &sep) {
            None => Err(UriError::MissingSeparator),
            Some(index) => {
                proof {
                    crate::text::lemma_find_from(rest@, slash(), 0);
                    assert(rest@.take(index as int) =~= rest@.subrange(0, index as int));
                    assert(rest@.skip(index as int).subrange(0, 1) =~= rest@.subrange(
                        index as int,
                        index + 1,
                    ));
                }
                let (from, to) = trim_bounds(&rest_chars, 0, index);
                if from == to {
                    return Err(UriError::EmptyRepoId);
                }
                Ok(
                    NexusRemoteUri {
                        repo_id: slice_string(rest.as_str(), from, to),
                        repo_path: slice_string(rest.as_str(), index, rest_chars.len()),
                    },
                )
            },
        }
    }

    /// Whether the URI denotes a directory.
    pub fn is_dir(&self) -> (r: bool)
        ensures
            r == self.denotes_dir(),
    {
        let path = chars_of(self.repo_path.as_str());
        let sep = vec!['/'];
        assert(sep@ =~= slash());
        ends_with(&path, &sep)
    }

    /// Whether the URI denotes a directory.
    pub fn is_directory(&self) -> (r: bool)
        ensures
            r == self.denotes_dir(),
    {
        self.is_dir()
    }

    /// The path of the directory that the URI denotes.
    pub fn repo_path_dir_or_err(&self) -> (r: Result<&str, UriError>)
        ensures
            r is Ok == self.denotes_dir(),
            r is Ok ==> r->Ok_0@ == self.repo_path@,
            r is Err ==> r->Err_0 == UriError::DirectoryExpected,
    {
        if !self.is_dir() {
            return Err(UriError::DirectoryExpected);
        }
        Ok(self.repo_path.as_str())
    }

    /// The URI as a text: the start, the repository's id and the path.
    pub fn to_string(&self) -> (out: String)
        ensures
            out@ == self.text(),
    {
        concat3("::/", self.repo_id.as_str(), self.repo_path.as_str())
    }
}

} // verus!
