use vstd::prelude::*;

use crate::model::{opt_view, CloneError};
use crate::path::{after_last_slash, append_chars, join, join_from, last_piece, views};
use crate::text::push_char;

verus! {

#[verifier::external_type_specification]
#[verifier::external_body]
pub struct ExParseError(url::ParseError);

/// What `url::Url::parse` makes of a text, as plain values: `None` when it refuses the
/// text, else the URL's host (if any) and its path segments (none for a URL that cannot
/// be a base).
pub uninterp spec fn url_parts(s: Seq<char>) -> Option<(Option<Seq<char>>, Option<Seq<Seq<char>>>)>;

/// The view of an optional list of strings.
pub open spec fn opt_views(o: Option<Vec<String>>) -> Option<Seq<Seq<char>>> {
    match o {
        Some(v) => Some(views(v@)),
        None => None,
    }
}

/// Relies on `url::Url::parse`, then on `Url::host_str` and `Url::path_segments` of the
/// parsed URL, which read it back as plain values.
#[verifier::external_body]
fn parse_url_parts(s: &str) -> (r: Result<(Option<String>, Option<Vec<String>>), url::ParseError>)
    ensures
        match r {
            Ok((h, p)) => url_parts(s@) == Some((opt_view(h), opt_views(p))),
            Err(_) => url_parts(s@) is None,
        },
{
    match url::Url::parse(s) {
        Ok(u) => {
            let host = u.host_str().map(String::from);
            let segments = u.path_segments().map(|p| p.map(String::from).collect());
            Ok((host, segments))
        },
        Err(e) => Err(e),
    }
}

/// The name of a file fetched from `url`, given the URL's path segments: the last of them;
/// what follows the text's last `/` when there are none.
pub open spec fn name_from(url: Seq<char>, segs: Option<Seq<Seq<char>>>) -> Seq<char> {
    if segs is Some && segs->Some_0.len() > 0 {
        segs->Some_0.last()
    } else {
        last_piece(url)
    }
}

/// The name under which a file fetched from `url` is stored: the last of the URL's path
/// segments as the `url` crate reads them, so that no query or fragment is part of it. For a
/// text that the `url` crate refuses, what follows the text's last `/`.
pub open spec fn file_name_of(url: Seq<char>) -> Seq<char> {
    match url_parts(url) {
        Some(parts) => name_from(url, parts.1),
        None => last_piece(url),
    }
}

/// The name of a file fetched from `url`, given the path segments that the `url` crate read
/// from it: the last segment; what follows the text's last `/` when there is none.
pub fn file_name_from_segments(url: &str, segments: Option<Vec<String>>) -> (r: String)
    ensures
        r@ == name_from(url@, opt_views(segments)),
{
    match segments {
        Some(segs) => {
            if segs.len() > 0 {
                text_at(&segs, segs.len() - 1)
            } else {
                after_last_slash(url)
            }
        },
        None => after_last_slash(url),
    }
}

/// The name under which a file fetched from `url` is stored: the last segment of the URL's
/// path, without query or fragment.
pub fn url_file_name(url: &str) -> (r: String)
    ensures
        r@ == file_name_of(url@),
{
    match parse_url_parts(url) {
        Ok((_, segments)) => file_name_from_segments(url, segments),
        Err(_) => after_last_slash(url),
    }
}

/// The repository coordinates that a browsing URL points at.
#[derive(Debug, Clone)]
pub struct RepositoryLocator {
    pub host: String,
    pub owner: String,
    pub repo: String,
    pub branch: String,
    pub subdir_path: Vec<String>,
}

/// `r` is the locator read from a URL with this host and these path segments, or the
/// error for them.
pub open spec fn locator_spec(
    host: Option<Seq<char>>,
    segs: Option<Seq<Seq<char>>>,
    r: Result<RepositoryLocator, CloneError>,
) -> bool {
    if segs is None || segs->Some_0.len() < 4 {
        r == Err::<RepositoryLocator, CloneError>(CloneError::MissingPathSegment)
    } else if host is None {
        r == Err::<RepositoryLocator, CloneError>(CloneError::InvalidUrl)
    } else {
        let s = segs->Some_0;
        &&& r is Ok
        &&& r->Ok_0.host@ == host->Some_0
        &&& r->Ok_0.owner@ == s[0]
        &&& r->Ok_0.repo@ == s[1]
        &&& r->Ok_0.branch@ == s[3]
        &&& views(r->Ok_0.subdir_path@) == s.skip(4)
    }
}

/// `r` is what a browsing URL parses into.
pub open spec fn parsed(url: Seq<char>, r: Result<RepositoryLocator, CloneError>) -> bool {
    match url_parts(url) {
        None => r == Err::<RepositoryLocator, CloneError>(CloneError::InvalidUrl),
        Some(parts) => locator_spec(parts.0, parts.1, r),
    }
}

/// The text at position `i` of `v`, copied.
fn text_at(v: &Vec<String>, i: usize) -> (r: String)
    requires
        i < v.len(),
    ensures
        r@ == v@[i as int]@,
{
    v[i].clone()
}

impl RepositoryLocator {
    /// Reads the coordinates from a URL's host and path segments: owner, repository, a
    /// marker segment that only has to be there, branch, then the subdirectory's segments.
    pub fn from_parts(host: Option<String>, segments: Option<Vec<String>>) -> (r: Result<
        RepositoryLocator,
        CloneError,
    >)
        ensures
            locator_spec(opt_view(host), opt_views(segments), r),
    {
        let segs = match segments {
            Some(s) => s,
            None => {
                return Err(CloneError::MissingPathSegment);
            },
        };
        if segs.len() < 4 {
            return Err(CloneError::MissingPathSegment);
        }
        let host = match host {
            Some(h) => h,
            None => {
                return Err(CloneError::InvalidUrl);
            },
        };
        let owner = text_at(&segs, 0);
        let repo = text_at(&segs, 1);
        let branch = text_at(&segs, 3);
        let mut subdir_path: Vec<String> = Vec::new();
        let mut i: usize = 4;
        while i < segs.len()
            invariant
                4 <= i <= segs.len(),
                views(subdir_path@) == views(segs@).subrange(4, i as int),
            decreases segs.len() - i,
        {
            let s = text_at(&segs, i);
            subdir_path.push(s);
            assert(views(subdir_path@) == views(segs@).subrange(4, i as int).push(s@));
            i = i + 1;
            assert(views(segs@).subrange(4, i as int) == views(segs@).subrange(4, i - 1).push(
                segs@[i - 1]@,
            ));
        }
        assert(views(segs@).subrange(4, i as int) == views(segs@).skip(4));
        Ok(RepositoryLocator { host, owner, repo, branch, subdir_path })
    }

    /// Parses a browsing URL `scheme://host/{owner}/{repo}/{marker}/{branch}/{subpath...}`
    /// into repository coordinates. Fails with `InvalidUrl` when the text is no URL.
    pub fn parse(url: &str) -> (r: Result<RepositoryLocator, CloneError>)
        ensures
            parsed(url@, r),
    {
        match parse_url_parts(url) {
            Ok((host, segments)) => RepositoryLocator::from_parts(host, segments),
            Err(_) => Err(CloneError::InvalidUrl),
        }
    }

    /// The subdirectory's path inside the repository: its segments joined with `/`.
    pub open spec fn subdir_spec(&self) -> Seq<char> {
        join(views(self.subdir_path@))
    }

    /// The subdirectory's path inside the repository (empty for the repository's root).
    pub fn subdir(&self) -> (r: String)
        ensures
            r@ == self.subdir_spec(),
    {
        assert(views(self.subdir_path@).skip(0) == views(self.subdir_path@));
        join_from(&self.subdir_path, 0)
    }

    /// The name that current-directory mode roots the local tree at: the URL's last segment.
    pub open spec fn target_name_spec(&self) -> Seq<char> {
        if self.subdir_path@.len() > 0 {
            self.subdir_path@.last()@
        } else {
            self.branch@
        }
    }

    /// The name that current-directory mode roots the local tree at: the last segment of
    /// the URL's path.
    pub fn target_dir_name(&self) -> (r: String)
        ensures
            r@ == self.target_name_spec(),
    {
        if self.subdir_path.len() > 0 {
            text_at(&self.subdir_path, self.subdir_path.len() - 1)
        } else {
            self.branch.clone()
        }
    }

    /// The listing API's URL for the subdirectory at the branch.
    pub open spec fn api_url_spec(&self) -> Seq<char> {
        "https://api."@ + self.host@ + "/repos/"@ + self.owner@ + "/"@ + self.repo@
            + "/contents/"@ + self.subdir_spec() + "?ref="@ + self.branch@
    }

    /// The listing API's URL for the subdirectory at the branch:
    /// `https://api.{host}/repos/{owner}/{repo}/contents/{subdir}?ref={branch}`.
    pub fn api_url(&self) -> (r: String)
        ensures
            r@ == self.api_url_spec(),
    {
        let mut s = String::new();
        append_chars(&mut s, "https://api.");
        append_chars(&mut s, self.host.as_str());
        append_chars(&mut s, "/repos/");
        append_chars(&mut s, self.owner.as_str());
        push_char(&mut s, '/');
        append_chars(&mut s, self.repo.as_str());
        append_chars(&mut s, "/contents/");
        let sub = self.subdir();
        append_chars(&mut s, sub.as_str());
        append_chars(&mut s, "?ref=");
        append_chars(&mut s, self.branch.as_str());
        proof {
            reveal_strlit("/");
            assert("/"@ == seq!['/']);
        }
        s
    }
}

/// A URL that the `url` crate reads with host `h` and path segments `s`, at least four of
/// them, parses into owner `s[0]`, repository `s[1]` and branch `s[3]`, with `s[4..]` joined
/// by `/` as the subdirectory; its listing is requested at
/// `https://api.{h}/repos/{s[0]}/{s[1]}/contents/{s[4..]}?ref={s[3]}`. With fewer than four
/// segments it fails with `MissingPathSegment`.
pub proof fn lemma_parse_decomposes(url: Seq<char>, r: Result<RepositoryLocator, CloneError>)
    requires
        parsed(url, r),
        url_parts(url) is Some,
        url_parts(url)->Some_0.0 is Some,
        url_parts(url)->Some_0.1 is Some,
    ensures
        ({
            let h = url_parts(url)->Some_0.0->Some_0;
            let s = url_parts(url)->Some_0.1->Some_0;
            if s.len() >= 4 {
                &&& r is Ok
                &&& r->Ok_0.owner@ == s[0]
                &&& r->Ok_0.repo@ == s[1]
                &&& r->Ok_0.branch@ == s[3]
                &&& r->Ok_0.subdir_spec() == join(s.skip(4))
                &&& r->Ok_0.api_url_spec() == "https://api."@ + h + "/repos/"@ + s[0] + "/"@ + s[1]
                    + "/contents/"@ + join(s.skip(4)) + "?ref="@ + s[3]
            } else {
                r == Err::<RepositoryLocator, CloneError>(CloneError::MissingPathSegment)
            }
        }),
{
}

} // verus!
