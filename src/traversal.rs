use vstd::prelude::*;

use crate::inline::{inline_file, inline_result};
use crate::locator::RepositoryLocator;
use crate::model::{
    classified, classify, file_target, file_target_spec, CloneError, ContentEntry,
    DownloadTarget, Mode, Payload, RawEntry,
};
use crate::model::{holds_text, opt_view, Source};
use crate::path::views;

verus! {

/// What the caller has to do next for a traversal.
#[derive(Debug, Clone)]
pub enum Action {
    /// Fetch the listing at this URL and hand the outcome to `on_listing`.
    Fetch(String),
    /// Write this file, then call `step`.
    Write(DownloadTarget),
    /// Report this failure of one listing node, then call `step`: the rest goes on.
    Report(CloneError),
    /// Nothing to do: call `step`.
    Continue,
    /// The traversal is over.
    Done,
}

/// A depth-first, pre-order walk over a repository directory through its listing API.
///
/// `frames` holds one list per directory being walked, the innermost last; each list holds
/// the entries not yet handled, the next one last. `visited` holds every listing URL that
/// was handed out to fetch.
#[derive(Debug)]
pub struct Traversal {
    pub target_name: String,
    pub mode: Mode,
    pub frames: Vec<Vec<RawEntry>>,
    pub visited: Vec<String>,
}

/// The listing element that stands for the directory a URL points at.
pub open spec fn root_entry_spec(e: RawEntry, loc: RepositoryLocator) -> bool {
    &&& e.entry_type is Some && e.entry_type->Some_0@ == "dir"@
    &&& e.url is Some && e.url->Some_0@ == loc.api_url_spec()
    &&& e.path is Some && e.path->Some_0@ == loc.subdir_spec()
    &&& e.name is None
    &&& e.download_url is None
}

/// Whether `u` is among the visited listing URLs.
pub fn was_visited(visited: &Vec<String>, u: &String) -> (r: bool)
    ensures
        r == views(visited@).contains(u@),
{
    let mut i: usize = 0;
    while i < visited.len()
        invariant
            i <= visited.len(),
            forall|j: int| 0 <= j < i ==> visited@[j]@ != u@,
        decreases visited.len() - i,
    {
        if visited[i] == *u {
            assert(views(visited@)[i as int] == u@);
            return true;
        }
        i = i + 1;
    }
    assert(forall|j: int| 0 <= j < views(visited@).len() ==> views(visited@)[j] != u@);
    false
}

/// The entries of `v` in the opposite order.
pub fn reversed(v: Vec<RawEntry>) -> (r: Vec<RawEntry>)
    ensures
        r@ == v@.reverse(),
{
    let ghost orig = v@;
    let mut v = v;
    let mut out: Vec<RawEntry> = Vec::new();
    while v.len() > 0
        invariant
            v@ == orig.take(v.len() as int),
            v.len() <= orig.len(),
            out@ == orig.skip(v.len() as int).reverse(),
        decreases v.len(),
    {
        let ghost n = v.len();
        let x = v.pop().unwrap();
        out.push(x);
        assert(orig.skip(n - 1) == seq![orig[n - 1]] + orig.skip(n as int));
        assert(orig.skip(n - 1).reverse() =~= orig.skip(n as int).reverse().push(orig[n - 1]));
        assert(v@ =~= orig.take(v.len() as int));
    }
    assert(orig.skip(0) == orig);
    out
}

/// `after` and `r` are what one `step` makes of `before`.
pub open spec fn stepped(before: Traversal, after: Traversal, r: Action) -> bool {
    &&& before.visits_unique() ==> after.visits_unique()
    &&& after.target_name == before.target_name
    &&& after.mode == before.mode
    &&& before.frames@.len() == 0 ==> {
        &&& r is Done
        &&& after.frames@ == before.frames@
        &&& after.visited == before.visited
    }
    &&& before.frames@.len() > 0 && before.top().len() == 0 ==> {
        &&& r is Continue
        &&& after.frames@ == before.frames@.drop_last()
        &&& after.visited == before.visited
    }
    &&& before.frames@.len() > 0 && before.top().len() > 0 ==> match classified(before.top().last()) {
        Err(e) => {
            &&& r == Action::Report(e)
            &&& after.frames@ == before.frames@.drop_last()
            &&& after.visited == before.visited
        },
        Ok(ContentEntry::Directory { listing_url, .. }) => {
            &&& after.took_entry(before)
            &&& if views(before.visited@).contains(listing_url@) {
                r is Continue && after.visited == before.visited
            } else {
                &&& r is Fetch
                &&& r->Fetch_0@ == listing_url@
                &&& views(after.visited@) == views(before.visited@).push(listing_url@)
            }
        },
        Ok(ContentEntry::File { path, download_url }) => {
            &&& after.took_entry(before)
            &&& after.visited == before.visited
            &&& r is Write
            &&& file_target_spec(
                path@,
                download_url@,
                before.target_name@,
                before.mode,
                r->Write_0,
            )
        },
    }
}

/// `after` and `r` are what `on_listing` makes of `before` and `outcome`.
pub open spec fn listed(
    before: Traversal,
    after: Traversal,
    outcome: Result<Payload, CloneError>,
    r: Action,
) -> bool {
    &&& before.visits_unique() ==> after.visits_unique()
    &&& after.target_name == before.target_name
    &&& after.mode == before.mode
    &&& after.visited == before.visited
    &&& match outcome {
        Ok(Payload::Entries(v)) => {
            &&& r is Continue
            &&& after.frames@.drop_last() == before.frames@
            &&& after.frames@.len() == before.frames@.len() + 1
            &&& after.top() == v@.reverse()
        },
        _ => after.frames == before.frames,
    }
    &&& match outcome {
        Err(e) => r == Action::Report(e),
        Ok(Payload::Other) => r == Action::Report(CloneError::InvalidApiResponse),
        Ok(Payload::Single(p)) => match r {
            Action::Write(t) => inline_result(p, Ok(t)),
            Action::Report(e) => inline_result(p, Err(e)),
            _ => false,
        },
        Ok(Payload::Entries(_)) => true,
    }
}

/// `t` is a traversal of the directory that `loc` points at, not begun yet.
pub open spec fn started(loc: RepositoryLocator, mode: Mode, t: Traversal) -> bool {
    &&& t.target_name@ == loc.target_name_spec()
    &&& t.mode == mode
    &&& t.visited@.len() == 0
    &&& t.visits_unique()
    &&& t.frames@.len() == 1
    &&& t.frames@[0]@.len() == 1
    &&& root_entry_spec(t.frames@[0]@[0], loc)
}

impl Traversal {
    /// A traversal that starts by listing the directory that `loc` points at.
    pub fn new(loc: &RepositoryLocator, mode: Mode) -> (r: Traversal)
        ensures
            started(*loc, mode, r),
    {
        proof {
            reveal_strlit("dir");
        }
        let root = RawEntry {
            entry_type: Some(String::from_str("dir")),
            name: None,
            path: Some(loc.subdir()),
            url: Some(loc.api_url()),
            download_url: None,
        };
        let mut frame: Vec<RawEntry> = Vec::new();
        frame.push(root);
        let mut frames: Vec<Vec<RawEntry>> = Vec::new();
        frames.push(frame);
        Traversal { target_name: loc.target_dir_name(), mode, frames, visited: Vec::new() }
    }

    /// No listing URL is handed out twice: the visited URLs are pairwise distinct.
    pub open spec fn visits_unique(&self) -> bool {
        forall|i: int, j: int|
            0 <= i < j < self.visited@.len() ==> self.visited@[i]@ != self.visited@[j]@
    }

    /// The entries still to handle in the innermost directory.
    pub open spec fn top(&self) -> Seq<RawEntry> {
        self.frames@.last()@
    }

    /// `self` is `before` with the innermost directory's next entry taken.
    pub open spec fn took_entry(&self, before: Traversal) -> bool {
        &&& self.frames@.len() == before.frames@.len()
        &&& self.frames@.drop_last() == before.frames@.drop_last()
        &&& self.top() == before.top().drop_last()
    }

    /// Handles the next entry of the walk.
    ///
    /// A file gives the target to write. A directory whose listing URL was not handed out
    /// yet gives that URL to fetch; one already visited is passed over. An entry of unknown
    /// type, or one without the fields its type needs, ends the listing it belongs to: it is
    /// reported, and the walk goes on in the enclosing directory. A finished listing is left.
    pub fn step(&mut self) -> (r: Action)
        ensures
            stepped(*old(self), *final(self), r),
    {
        let ghost before = self.frames@;
        let mut top = match self.frames.pop() {
            Some(f) => f,
            None => {
                return Action::Done;
            },
        };
        let e = match top.pop() {
            Some(e) => e,
            None => {
                return Action::Continue;
            },
        };
        match classify(e) {
            Err(err) => Action::Report(err),
            Ok(ContentEntry::Directory { listing_url, .. }) => {
                self.frames.push(top);
                assert(self.frames@.drop_last() =~= before.drop_last());
                if was_visited(&self.visited, &listing_url) {
                    Action::Continue
                } else {
                    let ghost before = self.visited@;
                    self.visited.push(listing_url.clone());
                    assert(views(self.visited@) == views(before).push(listing_url@));
                    assert forall|j: int| 0 <= j < before.len() implies before[j]@ != listing_url@ by {
                        if before[j]@ == listing_url@ {
                            assert(views(before)[j] == listing_url@);
                        }
                    }
                    Action::Fetch(listing_url)
                }
            },
            Ok(ContentEntry::File { path, download_url }) => {
                self.frames.push(top);
                assert(self.frames@.drop_last() =~= before.drop_last());
                let t = file_target(path.as_str(), download_url, self.target_name.as_str(), self.mode);
                Action::Write(t)
            },
        }
    }

    /// Takes in the outcome of a fetched listing.
    ///
    /// A failed fetch is reported and its subtree yields nothing. A list of entries becomes
    /// the innermost directory, walked in the order given. A single file object gives that
    /// file with its inline content decoded. Any other answer is reported as
    /// `InvalidApiResponse`.
    pub fn on_listing(&mut self, outcome: Result<Payload, CloneError>) -> (r: Action)
        ensures
            listed(*old(self), *final(self), outcome, r),
    {
        match outcome {
            Err(e) => Action::Report(e),
            Ok(Payload::Other) => Action::Report(CloneError::InvalidApiResponse),
            Ok(Payload::Single(p)) => match inline_file(&p) {
                Ok(t) => Action::Write(t),
                Err(e) => Action::Report(e),
            },
            Ok(Payload::Entries(v)) => {
                let rv = reversed(v);
                let ghost before = self.frames@;
                self.frames.push(rv);
                assert(self.frames@.drop_last() =~= before);
                Action::Continue
            },
        }
    }
}

} // verus!

verus! {

/// What a listing element holds, as plain values.
pub open spec fn entry_view(e: RawEntry) -> (
    Option<Seq<char>>,
    Option<Seq<char>>,
    Option<Seq<char>>,
    Option<Seq<char>>,
    Option<Seq<char>>,
) {
    (opt_view(e.entry_type), opt_view(e.name), opt_view(e.path), opt_view(e.url), opt_view(
        e.download_url,
    ))
}

/// The entries still to handle, directory by directory, as plain values.
pub open spec fn frames_view(t: Traversal) -> Seq<Seq<(
    Option<Seq<char>>,
    Option<Seq<char>>,
    Option<Seq<char>>,
    Option<Seq<char>>,
    Option<Seq<char>>,
)>> {
    t.frames@.map_values(|f: Vec<RawEntry>| f@.map_values(|e: RawEntry| entry_view(e)))
}

/// Two traversals hold the same values.
pub open spec fn same_state(a: Traversal, b: Traversal) -> bool {
    &&& a.target_name@ == b.target_name@
    &&& a.mode == b.mode
    &&& frames_view(a) == frames_view(b)
    &&& views(a.visited@) == views(b.visited@)
}

/// Two targets write the same bytes source to the same place.
pub open spec fn same_target(a: DownloadTarget, b: DownloadTarget) -> bool {
    &&& a.local_directory@ == b.local_directory@
    &&& a.file_name@ == b.file_name@
    &&& match (a.source, b.source) {
        (Source::Url(x), Source::Url(y)) => x@ == y@,
        (Source::InlineBytes(x), Source::InlineBytes(y)) => x@ == y@,
        _ => false,
    }
}

/// Two actions ask for the same thing.
pub open spec fn same_action(a: Action, b: Action) -> bool {
    match (a, b) {
        (Action::Fetch(x), Action::Fetch(y)) => x@ == y@,
        (Action::Write(x), Action::Write(y)) => same_target(x, y),
        (Action::Report(x), Action::Report(y)) => x == y,
        (Action::Continue, Action::Continue) => true,
        (Action::Done, Action::Done) => true,
        _ => false,
    }
}

/// The innermost directory's entries, as plain values, are the last of `frames_view`.
proof fn lemma_top_view(t: Traversal)
    requires
        t.frames@.len() > 0,
    ensures
        frames_view(t).len() == t.frames@.len(),
        frames_view(t).last() == t.top().map_values(|e: RawEntry| entry_view(e)),
{
}

/// A step is determined by the values it starts from: from two traversals that hold the
/// same values, one step each leads to traversals that hold the same values, and asks for
/// the same action.
pub proof fn lemma_step_determined(
    b1: Traversal,
    a1: Traversal,
    r1: Action,
    b2: Traversal,
    a2: Traversal,
    r2: Action,
)
    requires
        same_state(b1, b2),
        stepped(b1, a1, r1),
        stepped(b2, a2, r2),
    ensures
        same_state(a1, a2),
        same_action(r1, r2),
{
    assert(frames_view(b1).len() == b1.frames@.len());
    assert(frames_view(b2).len() == b2.frames@.len());
    assert(frames_view(a1).len() == a1.frames@.len());
    assert(frames_view(a2).len() == a2.frames@.len());
    if b1.frames@.len() == 0 {
        assert(frames_view(a1) =~= frames_view(b1));
        assert(frames_view(a2) =~= frames_view(b2));
    } else {
        lemma_top_view(b1);
        lemma_top_view(b2);
        let t1 = b1.top();
        let t2 = b2.top();
        let v1 = t1.map_values(|e: RawEntry| entry_view(e));
        let v2 = t2.map_values(|e: RawEntry| entry_view(e));
        assert(t1.len() == v1.len());
        assert(t2.len() == v2.len());
        if t1.len() == 0 {
            assert(frames_view(a1) =~= frames_view(b1).drop_last());
            assert(frames_view(a2) =~= frames_view(b2).drop_last());
        } else {
            let e1 = t1.last();
            let e2 = t2.last();
            assert(entry_view(e1) == v1.last());
            assert(entry_view(e2) == v2.last());
            match classified(e1) {
                Err(_) => {
                    assert(frames_view(a1) =~= frames_view(b1).drop_last());
                    assert(frames_view(a2) =~= frames_view(b2).drop_last());
                },
                Ok(_) => {
                    assert(a1.took_entry(b1));
                    assert(a2.took_entry(b2));
                    assert(forall|i: int|
                        0 <= i < a1.frames@.len() - 1 ==> a1.frames@.drop_last()[i] == a1.frames@[i]);
                    assert(forall|i: int|
                        0 <= i < b1.frames@.len() - 1 ==> b1.frames@.drop_last()[i] == b1.frames@[i]);
                    assert(forall|i: int|
                        0 <= i < a2.frames@.len() - 1 ==> a2.frames@.drop_last()[i] == a2.frames@[i]);
                    assert(forall|i: int|
                        0 <= i < b2.frames@.len() - 1 ==> b2.frames@.drop_last()[i] == b2.frames@[i]);
                    assert(a1.frames@.len() > 0);
                    lemma_top_view(a1);
                    lemma_top_view(a2);
                    assert(a1.top().map_values(|e: RawEntry| entry_view(e)) =~= v1.drop_last());
                    assert(a2.top().map_values(|e: RawEntry| entry_view(e)) =~= v2.drop_last());
                    assert(frames_view(a1) =~= frames_view(b1).drop_last().push(v1.drop_last()));
                    assert(frames_view(a2) =~= frames_view(b2).drop_last().push(v2.drop_last()));
                },
            }
        }
    }
}

/// Taking in a listing is determined by the values it starts from: from two traversals that
/// hold the same values, the same outcome leads to traversals that hold the same values, and
/// asks for the same action.
pub proof fn lemma_listing_determined(
    b1: Traversal,
    a1: Traversal,
    r1: Action,
    b2: Traversal,
    a2: Traversal,
    r2: Action,
    outcome: Result<Payload, CloneError>,
)
    requires
        same_state(b1, b2),
        listed(b1, a1, outcome, r1),
        listed(b2, a2, outcome, r2),
    ensures
        same_state(a1, a2),
        same_action(r1, r2),
{
    match outcome {
        Ok(Payload::Entries(v)) => {
            let rv = v@.reverse().map_values(|e: RawEntry| entry_view(e));
            assert(forall|i: int|
                0 <= i < b1.frames@.len() ==> a1.frames@.drop_last()[i] == a1.frames@[i]);
            assert(forall|i: int|
                0 <= i < b2.frames@.len() ==> a2.frames@.drop_last()[i] == a2.frames@[i]);
            assert(frames_view(a1) =~= frames_view(b1).push(rv));
            assert(frames_view(a2) =~= frames_view(b2).push(rv));
            assert(r1 is Continue && r2 is Continue);
        },
        Ok(Payload::Single(_)) => {
            if r1 is Write && r2 is Write {
                assert(r1->Write_0.local_directory@ =~= r2->Write_0.local_directory@);
            }
        },
        _ => {},
    }
}

/// Two traversals started from the same locator in the same mode hold the same values.
pub proof fn lemma_start_determined(loc: RepositoryLocator, mode: Mode, t1: Traversal, t2: Traversal)
    requires
        started(loc, mode, t1),
        started(loc, mode, t2),
    ensures
        same_state(t1, t2),
{
    let e1 = t1.frames@[0]@[0];
    let e2 = t2.frames@[0]@[0];
    assert(entry_view(e1) == entry_view(e2));
    assert(t1.frames@[0]@.map_values(|e: RawEntry| entry_view(e)) =~= t2.frames@[0]@.map_values(
        |e: RawEntry| entry_view(e),
    ));
    assert(frames_view(t1) =~= frames_view(t2));
    assert(views(t1.visited@) =~= views(t2.visited@));
}

/// An entry whose type is absent, or neither `dir` nor `file`, is reported as
/// `UnknownEntryType`; only the rest of its own listing is dropped, while the enclosing
/// listings, and every target already handed out, stay as they were.
pub proof fn lemma_unknown_entry_reported(before: Traversal, after: Traversal, r: Action)
    requires
        stepped(before, after, r),
        before.frames@.len() > 0,
        before.top().len() > 0,
        !holds_text(before.top().last().entry_type, "dir"@),
        !holds_text(before.top().last().entry_type, "file"@),
    ensures
        r == Action::Report(CloneError::UnknownEntryType),
        after.frames@ == before.frames@.drop_last(),
        after.visited == before.visited,
{
}

} // verus!
