//! Where things are kept in the user's home directory.

use crate::records::option_view;
use crate::text::{trim, trimmed};
use vstd::prelude::*;

verus! {

/// The path of `relative` in the directory `base`.
pub open spec fn path_in(base: Seq<char>, relative: Seq<char>) -> Seq<char> {
    if base.len() == 0 || base.last() == '/' {
        base + relative
    } else {
        base + seq!['/'] + relative
    }
}

/// The path of `relative` in the home directory, or `relative` where no home is known.
pub open spec fn path_in_home(home: Option<Seq<char>>, relative: Seq<char>) -> Seq<char> {
    match home {
        Some(h) => path_in(h, relative),
        None => relative,
    }
}

/// The path of `relative` in the home directory, or `relative` where no home is known.
fn home_path(home: &Option<String>, relative: &str) -> (path: String)
    ensures
        path@ == path_in_home(option_view(*home), relative@),
{
    match home {
        Some(h) => {
            let mut path = h.clone();
            let n = h.as_str().unicode_len();
            if n > 0 && h.as_str().get_char(n - 1) != '/' {
                path.push('/');
                assert(h@ + seq!['/'] =~= h@.push('/'));
            }
            path.append(relative);
            path
        },
        None => relative.to_owned(),
    }
}

/// Where the bearer token is kept, in the home directory.
pub fn token_file() -> (path: &'static str)
    ensures
        path@ == ".gfb/agents/kimi-desktop.token"@,
{
    ".gfb/agents/kimi-desktop.token"
}

/// The bearer token that the token file holds; none where there is no such file.
pub open spec fn bearer_token(contents: Option<Seq<char>>) -> Seq<char> {
    match contents {
        Some(text) => trimmed(text),
        None => Seq::empty(),
    }
}

/// The bearer token that the token file holds; none where there is no such file.
pub fn default_bearer_token(contents: &Option<String>) -> (token: String)
    ensures
        token@ == bearer_token(option_view(*contents)),
{
    match contents {
        Some(text) => trim(text.as_str()),
        None => String::new(),
    }
}

/// Where the audit log is.
pub fn default_audit_path(home: &Option<String>) -> (path: String)
    ensures
        path@ == path_in_home(option_view(*home), ".gfb/audit.log"@),
{
    home_path(home, ".gfb/audit.log")
}

/// Where the pending approvals are.
pub fn default_pending_dir(home: &Option<String>) -> (path: String)
    ensures
        path@ == path_in_home(option_view(*home), ".gfb/pending"@),
{
    home_path(home, ".gfb/pending")
}

/// White space around the token in its file, such as a line feed at its end, is no part of it.
pub proof fn law_token_is_trimmed(contents: Option<Seq<char>>)
    ensures
        trimmed(bearer_token(contents)) == bearer_token(contents),
{
    match contents {
        Some(text) => crate::text::law_trimmed(text),
        None => crate::text::law_trimmed(Seq::empty()),
    }
}

/// A path in the home directory is the home, one slash, and the rest: none is added behind a slash
/// or to an empty home, and where no home is known the rest stands alone.
pub proof fn law_path_in_home(home: Seq<char>, relative: Seq<char>)
    ensures
        home.len() > 0 && home.last() != '/' ==> path_in_home(Some(home), relative) == home.push('/')
            + relative,
        home.len() > 0 && home.last() == '/' ==> path_in_home(Some(home), relative) == home
            + relative,
        path_in_home(Some(Seq::empty()), relative) == relative,
        path_in_home(None, relative) == relative,
{
    assert(home + seq!['/'] =~= home.push('/'));
    assert(Seq::<char>::empty() + relative =~= relative);
}

/// The token is the contents of its file without the white space around it, and empty where there
/// is no file.
pub proof fn law_token_is_the_file(contents: Seq<char>)
    ensures
        exists|a: int, b: int|
            {
                &&& 0 <= a <= b <= contents.len()
                &&& bearer_token(Some(contents)) == #[trigger] contents.subrange(a, b)
                &&& forall|i: int|
                    0 <= i < a ==> crate::text::white_space(#[trigger] contents[i])
                &&& forall|i: int|
                    b <= i < contents.len() ==> crate::text::white_space(#[trigger] contents[i])
                &&& a < b ==> !crate::text::white_space(contents[a])
                    && !crate::text::white_space(contents[b - 1])
            },
        bearer_token(None) == Seq::<char>::empty(),
{
    crate::text::law_trimming_takes_white_space_only(contents);
    crate::text::law_trimmed(contents);
    let (a, b) = choose|a: int, b: int|
        {
            &&& 0 <= a <= b <= contents.len()
            &&& trimmed(contents) == #[trigger] contents.subrange(a, b)
            &&& forall|i: int| 0 <= i < a ==> crate::text::white_space(#[trigger] contents[i])
            &&& forall|i: int|
                b <= i < contents.len() ==> crate::text::white_space(#[trigger] contents[i])
        };
    assert(bearer_token(Some(contents)) == contents.subrange(a, b));
}

/// The default paths lie in the home directory, or where the window was started; the token is that
/// of its file.
pub proof fn law_defaults(
    home: &Option<String>,
    contents: &Option<String>,
    audit: String,
    pending: String,
    token: String,
)
    requires
        call_ensures(default_audit_path, (home,), audit),
        call_ensures(default_pending_dir, (home,), pending),
        call_ensures(default_bearer_token, (contents,), token),
    ensures
        home is None ==> audit@ == ".gfb/audit.log"@ && pending@ == ".gfb/pending"@,
        home matches Some(h) ==> {
            let base = if h@.len() == 0 || h@.last() == '/' {
                h@
            } else {
                h@.push('/')
            };
            audit@ == base + ".gfb/audit.log"@ && pending@ == base + ".gfb/pending"@
        },
        contents matches Some(text) ==> token@ == trimmed(text@),
        contents is None ==> token@.len() == 0,
{
    if let Some(h) = home {
        law_path_in_home(h@, ".gfb/audit.log"@);
        law_path_in_home(h@, ".gfb/pending"@);
        if h@.len() == 0 {
            assert(h@ =~= Seq::<char>::empty());
            assert(h@ + ".gfb/audit.log"@ =~= ".gfb/audit.log"@);
            assert(h@ + ".gfb/pending"@ =~= ".gfb/pending"@);
        }
    }
}

} // verus!
