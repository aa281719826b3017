//! The update host: who may publish a release file, and under which names.

use vstd::prelude::*;
use vstd::string::*;

verus! {

/// The largest file that can be published, in bytes.
pub const MAX_UPLOAD_BYTES: usize = 200 * 1024 * 1024;

/// Where release files are kept, and the token that whoever publishes one must
/// show. Without a token nobody can publish.
#[derive(Debug)]
pub struct UpdateHost {
    pub updates_dir: String,
    pub upload_token: Option<String>,
}

/// How an attempt to publish a file comes out.
#[derive(Debug, Clone, Copy, PartialEq)]
pub enum Outcome {
    Unauthorized,
    InvalidFilename,
    Saved,
    NotSaved,
}

/// A byte that the text of a header may hold: visible ASCII, the space or the tab.
pub open spec fn visible(b: u8) -> bool {
    32 <= b < 127 || b == 9
}

/// The characters of ASCII bytes.
pub open spec fn ascii_chars(bytes: Seq<u8>) -> Seq<char> {
    Seq::new(bytes.len(), |i: int| bytes[i] as char)
}

/// The header shows the token: it is `Bearer`, a space and the token, all visible
/// ASCII.
pub open spec fn shows_token(header: Seq<u8>, token: Seq<char>) -> bool {
    &&& forall|i: int| 0 <= i < header.len() ==> visible(#[trigger] header[i])
    &&& ascii_chars(header) == "Bearer "@ + token
}

/// Two dots stand side by side.
pub open spec fn has_two_dots(name: Seq<char>) -> bool {
    exists|i: int| 0 <= i < name.len() - 1 && #[trigger] name[i] == '.' && name[i + 1] == '.'
}

/// A bare filename, which cannot lead out of the directory it stands in.
pub open spec fn bare_filename(name: Seq<char>) -> bool {
    &&& !name.contains('/')
    &&& !name.contains('\\')
    &&& !has_two_dots(name)
}

/// The path of the file of this name in the directory, under Unix rules: the two
/// with a slash between them, unless the directory ends in one, or is empty and so
/// the one that the process works in.
pub open spec fn path_in(dir: Seq<char>, name: Seq<char>) -> Seq<char> {
    if dir.len() == 0 || dir.last() == '/' {
        dir + name
    } else {
        dir.push('/') + name
    }
}

/// Where the last slash stands, or -1 where there is none.
pub open spec fn last_slash(path: Seq<char>) -> int
    decreases path.len(),
{
    if path.len() == 0 {
        -1
    } else if path.last() == '/' {
        path.len() - 1
    } else {
        last_slash(path.drop_last())
    }
}

/// The last slash stands in the text.
pub proof fn lemma_last_slash_bounds(path: Seq<char>)
    ensures
        -1 <= last_slash(path) < path.len(),
    decreases path.len(),
{
    if path.len() > 0 && path.last() != '/' {
        lemma_last_slash_bounds(path.drop_last());
    }
}

/// The names that a path leads through, under Unix rules. An empty name, or a single
/// dot, leads nowhere and is left out.
pub open spec fn components(path: Seq<char>) -> Seq<Seq<char>>
    decreases path.len(),
{
    if path.len() == 0 {
        Seq::empty()
    } else {
        let k = last_slash(path);
        let name = path.skip(k + 1);
        proof {
            lemma_last_slash_bounds(path);
        }
        let before = if k < 0 {
            Seq::empty()
        } else {
            components(path.take(k))
        };
        if name.len() == 0 || name == "."@ {
            before
        } else {
            before.push(name)
        }
    }
}

/// The path starts from the root.
pub open spec fn absolute(path: Seq<char>) -> bool {
    path.len() > 0 && path[0] == '/'
}

/// `HeaderValue::to_str` of the `http` crate, on the header value that
/// `HeaderValue::from_bytes` makes of these bytes: the same characters, where every
/// byte is visible ASCII, a space or a tab, and nothing where one is not. What
/// `from_bytes` refuses, the control characters, `to_str` would refuse too.
#[verifier::external_body]
fn header_text(bytes: &[u8]) -> (text: Option<String>)
    ensures
        text is Some <==> forall|i: int| 0 <= i < bytes@.len() ==> visible(#[trigger] bytes@[i]),
        text is Some ==> text->0@ == ascii_chars(bytes@),
{
    let value = axum::http::HeaderValue::from_bytes(bytes).ok()?;
    value.to_str().ok().map(|text| text.to_string())
}

impl UpdateHost {
    /// Whoever sent this header, if any, may publish.
    pub open spec fn admits(self, authorization: Option<Seq<u8>>) -> bool {
        &&& self.upload_token is Some
        &&& authorization is Some
        &&& shows_token(authorization->0, self.upload_token->0@)
    }

    /// Whether the value of the authorization header, if there is one, shows the
    /// token.
    pub fn authorized(&self, authorization: Option<&[u8]>) -> (yes: bool)
        ensures
            yes == self.admits(
                match authorization {
                    Some(bytes) => Some(bytes@),
                    None => None,
                },
            ),
    {
        match (&self.upload_token, authorization) {
            (Some(expected), Some(bytes)) => {
                match header_text(bytes) {
                    Some(text) => {
                        let mut wanted = "Bearer ".to_owned();
                        wanted.append(expected.as_str());
                        text == wanted
                    },
                    None => false,
                }
            },
            _ => false,
        }
    }

    /// The path to write the file to, where it may be published under this name, or
    /// else why not. The token comes first: without it nothing is said of the name.
    pub fn publish_update(&self, filename: &str, authorization: Option<&[u8]>) -> (verdict: Result<
        String,
        Outcome,
    >)
        ensures
            ({
                let admitted = self.admits(
                    match authorization {
                        Some(bytes) => Some(bytes@),
                        None => None,
                    },
                );
                match verdict {
                    Ok(path) => {
                        &&& admitted
                        &&& bare_filename(filename@)
                        &&& path@ == path_in(self.updates_dir@, filename@)
                    },
                    Err(Outcome::Unauthorized) => !admitted,
                    Err(Outcome::InvalidFilename) => admitted && !bare_filename(filename@),
                    Err(_) => false,
                }
            }),
    {
        if !self.authorized(authorization) {
            Err(Outcome::Unauthorized)
        } else if !is_bare_filename(filename) {
            Err(Outcome::InvalidFilename)
        } else {
            Ok(self.path_of(filename))
        }
    }

    /// The path of the file of this name in the updates directory.
    fn path_of(&self, filename: &str) -> (path: String)
        ensures
            path@ == path_in(self.updates_dir@, filename@),
    {
        let mut path = self.updates_dir.clone();
        let length = path.as_str().unicode_len();
        if length > 0 && path.as_str().get_char(length - 1) != '/' {
            path.append("/");
            proof {
                reveal_strlit("/");
                assert(path@ =~= self.updates_dir@.push('/'));
            }
        }
        path.append(filename);
        path
    }
}

/// What one more character does to a bare filename.
proof fn lemma_bare_filename_push(name: Seq<char>, c: char)
    ensures
        bare_filename(name.push(c)) <==> {
            &&& bare_filename(name)
            &&& c != '/'
            &&& c != '\\'
            &&& !(c == '.' && name.len() > 0 && name.last() == '.')
        },
{
    let longer = name.push(c);
    assert(longer[name.len() as int] == c);
    assert forall|x: char| longer.contains(x) <==> name.contains(x) || x == c by {
        if name.contains(x) {
            assert(longer[name.index_of(x)] == x);
        }
    }
    if has_two_dots(name) {
        let i = choose|i: int|
            0 <= i < name.len() - 1 && #[trigger] name[i] == '.' && name[i + 1] == '.';
        assert(longer[i] == '.' && longer[i + 1] == '.');
    }
    if c == '.' && name.len() > 0 && name.last() == '.' {
        assert(longer[name.len() - 1] == '.' && longer[name.len() - 1 + 1] == '.');
    }
    if has_two_dots(longer) && !has_two_dots(name) {
        let i = choose|i: int|
            0 <= i < longer.len() - 1 && #[trigger] longer[i] == '.' && longer[i + 1] == '.';
        if i < name.len() - 1 {
            assert(name[i] == '.' && name[i + 1] == '.');
        }
    }
}

/// Whether the name has no slash, no backslash and no two dots side by side.
pub fn is_bare_filename(name: &str) -> (yes: bool)
    ensures
        yes == bare_filename(name@),
{
    let mut dot_before = false;
    let mut yes = true;
    for c in it: name.chars()
        invariant
            it.seq() == name@,
            yes == bare_filename(name@.take(it.index())),
            dot_before == (it.index() > 0 && name@[it.index() - 1] == '.'),
    {
        proof {
            let i = it.index();
            assert(name@.take(i + 1) =~= name@.take(i).push(c));
            lemma_bare_filename_push(name@.take(i), c);
        }
        if c == '/' || c == '\\' || (c == '.' && dot_before) {
            yes = false;
        }
        dot_before = c == '.';
    }
    assert(name@.take(name@.len() as int) =~= name@);
    yes
}

impl Outcome {
    /// What becomes of a file that may be written, by whether it was.
    pub fn of_write(written: bool) -> (outcome: Outcome)
        ensures
            outcome == (if written {
                Outcome::Saved
            } else {
                Outcome::NotSaved
            }),
    {
        if written {
            Outcome::Saved
        } else {
            Outcome::NotSaved
        }
    }

    /// The HTTP status that answers the attempt.
    pub fn status(self) -> (code: u16)
        ensures
            code == (match self {
                Outcome::Unauthorized => 401u16,
                Outcome::InvalidFilename => 400u16,
                Outcome::Saved => 200u16,
                Outcome::NotSaved => 500u16,
            }),
    {
        match self {
            Outcome::Unauthorized => 401,
            Outcome::InvalidFilename => 400,
            Outcome::Saved => 200,
            Outcome::NotSaved => 500,
        }
    }

    /// The text that answers the attempt.
    pub fn body(self) -> (text: String)
        ensures
            text@ == (match self {
                Outcome::Unauthorized => "unauthorized"@,
                Outcome::InvalidFilename => "invalid filename"@,
                Outcome::Saved => "ok"@,
                Outcome::NotSaved => "failed to save file"@,
            }),
    {
        match self {
            Outcome::Unauthorized => "unauthorized".to_owned(),
            Outcome::InvalidFilename => "invalid filename".to_owned(),
            Outcome::Saved => "ok".to_owned(),
            Outcome::NotSaved => "failed to save file".to_owned(),
        }
    }
}

/// Without a token publishing is not open to all but closed to all.
pub proof fn law_no_token_no_publishing(host: UpdateHost, authorization: Option<Seq<u8>>)
    requires
        host.upload_token is None,
    ensures
        !host.admits(authorization),
{
}

/// Who may publish, byte by byte: there is a token, and the header is the six letters
/// of `Bearer`, a space, and behind them the characters of the token, one byte each,
/// of which every one is visible ASCII, a space or a tab. How long the token is makes
/// no difference. Without a header nobody may.
pub proof fn law_the_token_and_nothing_else_admits(host: UpdateHost, header: Seq<u8>)
    ensures
        host.admits(Some(header)) <==> host.upload_token is Some && {
            let token = host.upload_token->0@;
            &&& header.len() == 7 + token.len()
            &&& header[0] == 66
            &&& header[1] == 101
            &&& header[2] == 97
            &&& header[3] == 114
            &&& header[4] == 101
            &&& header[5] == 114
            &&& header[6] == 32
            &&& forall|i: int|
                0 <= i < token.len() ==> {
                    &&& #[trigger] token[i] == header[7 + i] as char
                    &&& 32 <= header[7 + i] < 127 || header[7 + i] == 9
                }
        },
        !host.admits(None),
{
    reveal_strlit("Bearer ");
    let prefix = "Bearer "@;
    if host.upload_token is Some {
        let token = host.upload_token->0@;
        let shown = ascii_chars(header);
        if shows_token(header, token) {
            assert(shown.len() == header.len());
            assert forall|i: int| 0 <= i < 7 implies header[i] as char == #[trigger] prefix[i] by {
                assert(shown[i] == prefix[i]);
            }
            assert(prefix[0] == 'B');
            assert(prefix[1] == 'e');
            assert(prefix[2] == 'a');
            assert(prefix[3] == 'r');
            assert(prefix[4] == 'e');
            assert(prefix[5] == 'r');
            assert(prefix[6] == ' ');
            assert forall|i: int| 0 <= i < token.len() implies {
                &&& #[trigger] token[i] == header[7 + i] as char
                &&& 32 <= header[7 + i] < 127 || header[7 + i] == 9
            } by {
                assert(shown[7 + i] == token[i]);
                assert(visible(header[7 + i]));
            }
        }
        if {
            &&& header.len() == 7 + token.len()
            &&& header[0] == 66
            &&& header[1] == 101
            &&& header[2] == 97
            &&& header[3] == 114
            &&& header[4] == 101
            &&& header[5] == 114
            &&& header[6] == 32
            &&& forall|i: int|
                0 <= i < token.len() ==> {
                    &&& #[trigger] token[i] == header[7 + i] as char
                    &&& 32 <= header[7 + i] < 127 || header[7 + i] == 9
                }
        } {
            assert forall|i: int| 0 <= i < header.len() implies visible(#[trigger] header[i])
                && shown[i] == (prefix + token)[i] by {
                if i >= 7 {
                    assert(token[i - 7] == header[7 + (i - 7)] as char);
                }
            }
            assert(shown =~= prefix + token);
        }
    }
}

/// Every token of visible ASCII characters can be shown: there is a header that
/// admits whoever sends it.
pub proof fn law_every_visible_token_can_be_shown(host: UpdateHost)
    requires
        host.upload_token is Some,
        forall|i: int|
            0 <= i < host.upload_token->0@.len() ==> 32 <= #[trigger] host.upload_token->0@[i] as int
                && (host.upload_token->0@[i] as int) < 127,
    ensures
        exists|header: Seq<u8>| #[trigger] host.admits(Some(header)),
{
    let token = host.upload_token->0@;
    let prefix: Seq<u8> = seq![66, 101, 97, 114, 101, 114, 32];
    let header = prefix + Seq::new(token.len(), |i: int| token[i] as u8);
    assert forall|i: int| 0 <= i < token.len() implies {
        &&& #[trigger] token[i] == header[7 + i] as char
        &&& 32 <= header[7 + i] < 127
    } by {
        assert(header[7 + i] == token[i] as u8);
    }
    law_the_token_and_nothing_else_admits(host, header);
    assert(host.admits(Some(header)));
}

/// A header shows one token at most: what opens one host opens another only where
/// the two have the same token.
pub proof fn law_a_header_shows_one_token(header: Seq<u8>, token: Seq<char>, other: Seq<char>)
    requires
        shows_token(header, token),
        shows_token(header, other),
    ensures
        token == other,
{
    let prefix = "Bearer "@;
    let n = prefix.len() as int;
    assert(token =~= (prefix + token).skip(n));
    assert(other =~= (prefix + other).skip(n));
}

/// A bare filename has no separator, of either kind, and is not the parent directory.
pub proof fn law_bare_filenames_hold_no_separator(name: Seq<char>, i: int)
    requires
        bare_filename(name),
    ensures
        0 <= i < name.len() ==> name[i] != '/' && name[i] != '\\',
        name != ".."@,
{
    reveal_strlit("..");
    assert(".."@[0] == '.' && ".."@[1] == '.');
    assert(has_two_dots(".."@));
}

/// Exactly these names are bare filenames: no character is a slash or a backslash,
/// and no dot stands behind another.
pub proof fn law_which_filenames_are_bare(name: Seq<char>)
    ensures
        bare_filename(name) <==> {
            &&& forall|i: int|
                0 <= i < name.len() ==> #[trigger] name[i] != '/' && name[i] != '\\'
            &&& forall|i: int, j: int|
                0 <= i && j == i + 1 && j < name.len() ==> !(#[trigger] name[i] == '.'
                    && #[trigger] name[j] == '.')
        },
{
    if bare_filename(name) {
        assert forall|i: int, j: int| 0 <= i && j == i + 1 && j < name.len() implies !(
        #[trigger] name[i] == '.' && #[trigger] name[j] == '.') by {
            if name[i] == '.' && name[i + 1] == '.' {
                assert(has_two_dots(name));
            }
        }
    }
    if has_two_dots(name) {
        let i = choose|i: int|
            0 <= i < name.len() - 1 && #[trigger] name[i] == '.' && name[i + 1] == '.';
        let j = i + 1;
        assert(name[i] == '.' && name[j] == '.');
    }
}

/// A path is the directory and behind it the name, with one slash between them where
/// the directory is not empty and does not end in one.
pub proof fn law_how_paths_are_made(dir: Seq<char>, name: Seq<char>)
    ensures
        ({
            let path = path_in(dir, name);
            let gap: int = if dir.len() == 0 || dir[dir.len() - 1] == '/' {
                0
            } else {
                1
            };
            &&& path.len() == dir.len() + gap + name.len()
            &&& forall|i: int| 0 <= i < dir.len() ==> path[i] == #[trigger] dir[i]
            &&& gap == 1 ==> path[dir.len() as int] == '/'
            &&& forall|i: int|
                0 <= i < name.len() ==> path[dir.len() + gap + i] == #[trigger] name[i]
        }),
{
}

/// The largest file that can be published has 200 mebibytes.
pub proof fn law_the_upload_limit()
    ensures
        MAX_UPLOAD_BYTES == 209_715_200,
{
}

/// Behind a text that is empty or ends in a slash, a name without one is what stands
/// behind the last slash.
proof fn lemma_last_slash_before_name(folder: Seq<char>, name: Seq<char>)
    requires
        folder.len() == 0 || folder.last() == '/',
        !name.contains('/'),
    ensures
        last_slash(folder + name) == folder.len() - 1,
    decreases name.len(),
{
    if name.len() == 0 {
        assert(folder + name =~= folder);
    } else {
        assert(name.contains(name[name.len() - 1]));
        assert((folder + name).last() == name.last());
        assert((folder + name).drop_last() =~= folder + name.drop_last());
        assert forall|c: char| name.drop_last().contains(c) implies name.contains(c) by {
            assert(name[name.drop_last().index_of(c)] == c);
        }
        lemma_last_slash_before_name(folder, name.drop_last());
    }
}

/// A published file lands in the updates directory itself, under the name it was
/// published under: its path leads through what the directory's does and then
/// through that one name, and so into no directory below it, nor anywhere else on
/// the disk. An empty name, or a single dot, names the directory, where no file can
/// be written.
pub proof fn law_published_files_land_in_the_directory(dir: Seq<char>, name: Seq<char>)
    requires
        bare_filename(name),
    ensures
        absolute(path_in(dir, name)) == absolute(dir),
        name.len() > 0 && name != "."@ ==> components(path_in(dir, name)) == components(dir).push(
            name,
        ),
        name.len() == 0 || name == "."@ ==> components(path_in(dir, name)) == components(dir),
        name != ".."@,
{
    law_bare_filenames_hold_no_separator(name, 0);
    let folder = if dir.len() == 0 || dir.last() == '/' {
        dir
    } else {
        dir.push('/')
    };
    let path = path_in(dir, name);
    assert(path == folder + name);
    lemma_last_slash_before_name(folder, name);
    assert(path.skip(folder.len() as int) =~= name);
    if folder.len() > 0 {
        assert(path.take(folder.len() - 1) =~= folder.drop_last());
        assert(path[0] == folder[0]);
        if dir.len() == 0 || dir.last() != '/' {
            assert(folder.drop_last() =~= dir);
        } else {
            assert(last_slash(dir) == dir.len() - 1);
            assert(dir.take(dir.len() - 1) =~= dir.drop_last());
            assert(dir.skip(dir.len() as int) =~= Seq::empty());
        }
    }
    if path.len() == 0 {
        assert(components(dir) =~= Seq::empty());
    }
}

} // verus!
