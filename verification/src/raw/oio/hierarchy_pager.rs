//! One level of a listing, made from a flat one.
//!
//! The flat listing names every file under the anchor. What lies directly
//! under the anchor is handed on; of what lies deeper only the first
//! directory on the way is reported, once.

use crate::entry::{entries_view, Entry, EntryView};
use crate::error::Error;
use crate::metadata::{EntryMode, Metadata};
use crate::raw::oio::io::Page;
use crate::raw::vecs::reversed;
use crate::text::{find_char, first_index_of, lemma_first_index_of, starts_with, take_chars};
use vstd::prelude::*;

verus! {

/// Where a path lies when seen from an anchor.
pub enum Placement {
    /// The path does not start with the anchor.
    Outside,
    /// Nothing but a name follows the anchor: the path lies directly under it.
    Direct,
    /// The path lies deeper, in the directory given, which lies directly under
    /// the anchor.
    Under(Seq<char>),
}

/// Where `path` lies when seen from `anchor`: outside, when the anchor is no
/// prefix of it; directly under it, when no slash follows the anchor; else
/// under the directory that ends at the first such slash.
pub open spec fn placement(anchor: Seq<char>, path: Seq<char>) -> Placement {
    if !anchor.is_prefix_of(path) {
        Placement::Outside
    } else {
        match first_index_of(path, anchor.len() as int, '/') {
            None => Placement::Direct,
            Some(i) => Placement::Under(path.subrange(0, i + 1)),
        }
    }
}

/// The entry that stands for the directory `path`.
pub open spec fn dir_entry(path: Seq<char>) -> EntryView {
    EntryView { path, meta: Metadata::spec_new(EntryMode::DIR) }
}

/// The views of a list of strings, in order.
pub open spec fn strings_view(s: Seq<String>) -> Seq<Seq<char>> {
    s.map_values(|t: String| t@)
}

/// One level of a listing: what the entries of a flat listing become, in
/// order, and the directories reported up to then. An entry directly under
/// the anchor is kept. An entry that lies deeper gives an entry for its
/// directory unless that directory was reported before. An entry outside the
/// anchor is dropped.
pub open spec fn synthesize(anchor: Seq<char>, visited: Seq<Seq<char>>, flat: Seq<EntryView>) -> (
    Seq<EntryView>,
    Seq<Seq<char>>,
)
    decreases flat.len(),
{
    if flat.len() == 0 {
        (Seq::empty(), visited)
    } else {
        let (out, seen) = synthesize(anchor, visited, flat.drop_last());
        let e = flat.last();
        match placement(anchor, e.path) {
            Placement::Outside => (out, seen),
            Placement::Direct => (out.push(e), seen),
            Placement::Under(d) => if seen.contains(d) {
                (out, seen)
            } else {
                (out.push(dir_entry(d)), seen.push(d))
            },
        }
    }
}

/// The entries of `s` that lie directly under the anchor, in order.
pub open spec fn direct_entries(anchor: Seq<char>, s: Seq<EntryView>) -> Seq<EntryView>
    decreases s.len(),
{
    if s.len() == 0 {
        Seq::empty()
    } else if placement(anchor, s.last().path) is Direct {
        direct_entries(anchor, s.drop_last()).push(s.last())
    } else {
        direct_entries(anchor, s.drop_last())
    }
}

/// The paths of the entries of `s` that are directories directly under the
/// anchor, in order.
pub open spec fn reported_dirs(anchor: Seq<char>, s: Seq<EntryView>) -> Seq<Seq<char>>
    decreases s.len(),
{
    if s.len() == 0 {
        Seq::empty()
    } else if placement(anchor, s.last().path) == Placement::Under(s.last().path) {
        reported_dirs(anchor, s.drop_last()).push(s.last().path)
    } else {
        reported_dirs(anchor, s.drop_last())
    }
}

/// Whether some entry of `flat` lies deeper than the anchor, in the directory
/// `d` directly under it.
pub open spec fn holds_deeper(anchor: Seq<char>, flat: Seq<EntryView>, d: Seq<char>) -> bool {
    exists|j: int|
        0 <= j < flat.len() && #[trigger] placement(anchor, flat[j].path) == Placement::Under(d)
}

/// A directory directly under the anchor lies under itself.
pub proof fn lemma_dir_placement(anchor: Seq<char>, path: Seq<char>)
    requires
        placement(anchor, path) is Under,
    ensures
        placement(anchor, placement(anchor, path)->Under_0) == placement(anchor, path),
{
    let n = anchor.len() as int;
    lemma_first_index_of(path, n, '/');
    let i = first_index_of(path, n, '/')->0;
    let d = path.subrange(0, i + 1);
    assert(d.subrange(0, n) =~= path.subrange(0, n));
    lemma_first_index_of(d, n, '/');
    match first_index_of(d, n, '/') {
        Some(j) => {
            assert(d[j] == path[j]);
            if j < i {
                assert(path[j] != '/');
            }
            assert(d.subrange(0, j + 1) =~= d);
        },
        None => {
            assert(d[i] == '/');
        },
    }
}

/// One level of well-formed entries is well formed: the entries that are made
/// for directories are directories, and their paths end in a slash.
pub proof fn lemma_level_well_formed(
    anchor: Seq<char>,
    visited: Seq<Seq<char>>,
    flat: Seq<EntryView>,
)
    requires
        forall|j: int| 0 <= j < flat.len() ==> (#[trigger] flat[j]).well_formed(),
    ensures
        forall|k: int|
            0 <= k < synthesize(anchor, visited, flat).0.len() ==> (#[trigger] synthesize(
                anchor,
                visited,
                flat,
            ).0[k]).well_formed(),
    decreases flat.len(),
{
    if flat.len() > 0 {
        let rest = flat.drop_last();
        let e = flat.last();
        assert forall|j: int| 0 <= j < rest.len() implies (#[trigger] rest[j]).well_formed() by {
            assert(rest[j] == flat[j]);
        }
        lemma_level_well_formed(anchor, visited, rest);
        let (out_p, seen_p) = synthesize(anchor, visited, rest);
        let out = synthesize(anchor, visited, flat).0;
        match placement(anchor, e.path) {
            Placement::Outside => {},
            Placement::Direct => {
                assert(e == flat[flat.len() - 1]);
                assert forall|k: int| 0 <= k < out.len() implies (#[trigger] out[k]).well_formed() by {
                    if k < out_p.len() {
                        assert(out[k] == out_p[k]);
                    }
                }
            },
            Placement::Under(d) => {
                lemma_first_index_of(e.path, anchor.len() as int, '/');
                assert(d.last() == '/');
                assert(dir_entry(d).well_formed());
                assert forall|k: int| 0 <= k < out.len() implies (#[trigger] out[k]).well_formed() by {
                    if k < out_p.len() {
                        assert(out[k] == out_p[k]);
                    }
                }
            },
        }
    }
}

/// Listing in batches gives what listing at once gives: the entries of the
/// second batch are judged against the directories that the first reported.
pub proof fn lemma_synthesize_concat(
    anchor: Seq<char>,
    visited: Seq<Seq<char>>,
    a: Seq<EntryView>,
    b: Seq<EntryView>,
)
    ensures
        ({
            let (out_a, seen_a) = synthesize(anchor, visited, a);
            let (out_b, seen_b) = synthesize(anchor, seen_a, b);
            synthesize(anchor, visited, a + b) == (out_a + out_b, seen_b)
        }),
    decreases b.len(),
{
    let (out_a, seen_a) = synthesize(anchor, visited, a);
    if b.len() == 0 {
        assert(a + b =~= a);
        assert(out_a + Seq::<EntryView>::empty() =~= out_a);
    } else {
        lemma_synthesize_concat(anchor, visited, a, b.drop_last());
        assert((a + b).drop_last() =~= a + b.drop_last());
        assert((a + b).last() == b.last());
        let (out_p, seen_p) = synthesize(anchor, seen_a, b.drop_last());
        let e = b.last();
        match placement(anchor, e.path) {
            Placement::Outside => {},
            Placement::Direct => {
                assert((out_a + out_p).push(e) =~= out_a + out_p.push(e));
            },
            Placement::Under(d) => {
                assert((out_a + out_p).push(dir_entry(d)) =~= out_a + out_p.push(dir_entry(d)));
            },
        }
    }
}

/// What one level of a listing holds, for a flat listing `flat` of everything
/// under `anchor`, with no directory reported before:
///
/// - the entries directly under the anchor are those of the flat listing, each
///   as often and in the order in which the flat listing has it;
/// - the directories reported are the directories directly under the anchor in
///   which some deeper entry of the flat listing lies, each of them once;
/// - every entry is one or the other.
pub proof fn lemma_one_level(anchor: Seq<char>, flat: Seq<EntryView>)
    ensures
        ({
            let (out, seen) = synthesize(anchor, Seq::empty(), flat);
            &&& direct_entries(anchor, out) == direct_entries(anchor, flat)
            &&& reported_dirs(anchor, out) == seen
            &&& seen.no_duplicates()
            &&& forall|d: Seq<char>| seen.contains(d) <==> holds_deeper(anchor, flat, d)
            &&& forall|k: int|
                0 <= k < out.len() ==> {
                    ||| placement(anchor, #[trigger] out[k].path) is Direct
                    ||| out[k] == dir_entry(out[k].path) && seen.contains(out[k].path)
                }
        }),
{
    lemma_levels(anchor, Seq::empty(), flat);
    let (out, seen) = synthesize(anchor, Seq::empty(), flat);
    assert(seen.subrange(0, seen.len() as int) =~= seen);
}

/// The general form of `lemma_one_level`, with directories reported before.
/// None of those is reported again.
pub proof fn lemma_levels(anchor: Seq<char>, visited: Seq<Seq<char>>, flat: Seq<EntryView>)
    requires
        visited.no_duplicates(),
    ensures
        ({
            let (out, seen) = synthesize(anchor, visited, flat);
            &&& direct_entries(anchor, out) == direct_entries(anchor, flat)
            &&& visited.len() <= seen.len()
            &&& seen.subrange(0, visited.len() as int) == visited
            &&& reported_dirs(anchor, out) == seen.subrange(visited.len() as int, seen.len() as int)
            &&& seen.no_duplicates()
            &&& forall|d: Seq<char>|
                seen.contains(d) <==> visited.contains(d) || holds_deeper(anchor, flat, d)
            &&& forall|k: int|
                0 <= k < out.len() ==> {
                    ||| placement(anchor, #[trigger] out[k].path) is Direct
                    ||| out[k] == dir_entry(out[k].path) && seen.contains(out[k].path)
                        && !visited.contains(out[k].path)
                }
        }),
    decreases flat.len(),
{
    let (out, seen) = synthesize(anchor, visited, flat);
    let n = visited.len() as int;
    if flat.len() == 0 {
        assert(seen.subrange(0, n) =~= visited);
        assert(seen.subrange(n, n) =~= Seq::<Seq<char>>::empty());
    } else {
        let rest = flat.drop_last();
        let e = flat.last();
        lemma_levels(anchor, visited, rest);
        let (out_p, seen_p) = synthesize(anchor, visited, rest);
        assert forall|d: Seq<char>| holds_deeper(anchor, rest, d) implies holds_deeper(
            anchor,
            flat,
            d,
        ) by {
            let j = choose|j: int|
                0 <= j < rest.len() && #[trigger] placement(anchor, rest[j].path)
                    == Placement::Under(d);
            assert(flat[j] == rest[j]);
        }
        assert forall|d: Seq<char>| holds_deeper(anchor, flat, d) implies holds_deeper(
            anchor,
            rest,
            d,
        ) || placement(anchor, e.path) == Placement::Under(d) by {
            let j = choose|j: int|
                0 <= j < flat.len() && #[trigger] placement(anchor, flat[j].path)
                    == Placement::Under(d);
            if j < rest.len() {
                assert(rest[j] == flat[j]);
                assert(placement(anchor, rest[j].path) == Placement::Under(d));
            } else {
                assert(flat[j] == e);
            }
        }
        match placement(anchor, e.path) {
            Placement::Outside => {},
            Placement::Direct => {
                assert(out.drop_last() =~= out_p);
                assert(out.last() == e);
            },
            Placement::Under(d) => {
                assert(placement(anchor, flat[flat.len() - 1].path) == Placement::Under(d));
                if !seen_p.contains(d) {
                    lemma_dir_placement(anchor, e.path);
                    assert(out.drop_last() =~= out_p);
                    assert(out.last() == dir_entry(d));
                    assert(seen.subrange(0, n) =~= seen_p.subrange(0, n));
                    assert(seen.subrange(n, seen.len() as int) =~= seen_p.subrange(
                        n,
                        seen_p.len() as int,
                    ).push(d));
                    assert(seen[seen.len() - 1] == d);
                    assert forall|c: Seq<char>| seen.contains(c) <==> seen_p.contains(c) || c
                        == d by {
                        if seen_p.contains(c) {
                            let i = choose|i: int| 0 <= i < seen_p.len() && seen_p[i] == c;
                            assert(seen[i] == c);
                        }
                    }
                    assert(!visited.contains(d)) by {
                        if visited.contains(d) {
                            let i = choose|i: int| 0 <= i < visited.len() && visited[i] == d;
                            assert(seen_p.subrange(0, n)[i] == d);
                            assert(seen_p[i] == d);
                        }
                    }
                    assert forall|k: int| 0 <= k < out.len() implies {
                        ||| placement(anchor, #[trigger] out[k].path) is Direct
                        ||| out[k] == dir_entry(out[k].path) && seen.contains(out[k].path)
                            && !visited.contains(out[k].path)
                    } by {
                        if k < out_p.len() {
                            assert(out[k] == out_p[k]);
                        }
                    }
                }
            },
        }
    }
}

/// The entries of a listing that arrives in batches, one batch after the
/// other.
pub open spec fn flatten(batches: Seq<Seq<EntryView>>) -> Seq<EntryView>
    decreases batches.len(),
{
    if batches.len() == 0 {
        Seq::empty()
    } else {
        flatten(batches.drop_last()) + batches.last()
    }
}

/// What comes of a flat listing that arrives in `batches` when each batch is
/// made into one level by itself, with the directories that the batches
/// before it reported: the batches that come out, and the directories reported
/// at the end.
pub open spec fn synthesize_each(
    anchor: Seq<char>,
    visited: Seq<Seq<char>>,
    batches: Seq<Seq<EntryView>>,
) -> (Seq<Seq<EntryView>>, Seq<Seq<char>>)
    decreases batches.len(),
{
    if batches.len() == 0 {
        (Seq::empty(), visited)
    } else {
        let (outs, seen) = synthesize_each(anchor, visited, batches.drop_last());
        let (out, seen_after) = synthesize(anchor, seen, batches.last());
        (outs.push(out), seen_after)
    }
}

/// A flat listing that ends after finitely many batches gives as many batches
/// of one level, and together they hold what the whole flat listing gives at
/// once: by `lemma_levels`, every entry directly under the anchor as often as
/// the flat listing has it, and every directory once, however the entries
/// fall into batches.
pub proof fn lemma_level_in_batches(
    anchor: Seq<char>,
    visited: Seq<Seq<char>>,
    batches: Seq<Seq<EntryView>>,
)
    ensures
        ({
            let (outs, seen) = synthesize_each(anchor, visited, batches);
            &&& outs.len() == batches.len()
            &&& (flatten(outs), seen) == synthesize(anchor, visited, flatten(batches))
        }),
    decreases batches.len(),
{
    if batches.len() > 0 {
        let rest = batches.drop_last();
        lemma_level_in_batches(anchor, visited, rest);
        lemma_synthesize_concat(anchor, visited, flatten(rest), batches.last());
        let (outs, seen) = synthesize_each(anchor, visited, rest);
        let (out, seen_after) = synthesize(anchor, seen, batches.last());
        assert(outs.push(out).drop_last() =~= outs);
    }
}

/// Where a path lies, with the directory spelled out.
enum Placed {
    Outside,
    Direct,
    Under(String),
}

impl Placed {
    spec fn as_placement(self) -> Placement {
        match self {
            Placed::Outside => Placement::Outside,
            Placed::Direct => Placement::Direct,
            Placed::Under(d) => Placement::Under(d@),
        }
    }
}

fn place(anchor: &str, path: &str) -> (r: Placed)
    ensures
        r.as_placement() == placement(anchor@, path@),
{
    if !starts_with(path, anchor) {
        return Placed::Outside;
    }
    let n = anchor.unicode_len();
    proof {
        lemma_first_index_of(path@, n as int, '/');
    }
    match find_char(path, n, '/') {
        None => Placed::Direct,
        Some(i) => Placed::Under(take_chars(path, i + 1)),
    }
}

fn is_visited(visited: &Vec<String>, d: &String) -> (r: bool)
    ensures
        r == strings_view(visited@).contains(d@),
{
    let mut i: usize = 0;
    while i < visited.len()
        invariant
            i <= visited.len(),
            forall|j: int| 0 <= j < i ==> strings_view(visited@)[j] != d@,
        decreases visited.len() - i,
    {
        if visited[i] == *d {
            assert(strings_view(visited@)[i as int] == d@);
            return true;
        }
        i += 1;
    }
    false
}

/// Turns one batch of a flat listing into one level: see `synthesize`.
/// `visited` holds the directories reported so far and gains those that this
/// batch reports.
pub fn synthesize_batch(anchor: &str, visited: &mut Vec<String>, batch: Vec<Entry>) -> (out: Vec<
    Entry,
>)
    ensures
        (entries_view(out@), strings_view(final(visited)@)) == synthesize(
            anchor@,
            strings_view(old(visited)@),
            entries_view(batch@),
        ),
{
    let ghost flat = entries_view(batch@);
    let mut reversed = reversed(batch);
    let mut out: Vec<Entry> = Vec::new();
    let ghost start = strings_view(visited@);
    proof {
        assert(entries_view(reversed@).reverse() =~= flat);
        assert(flat.subrange(0, flat.len() as int) =~= flat);
        assert(flat.take(0) =~= Seq::<EntryView>::empty());
        assert(entries_view(out@) =~= Seq::<EntryView>::empty());
    }
    let ghost mut done: int = 0;
    while reversed.len() > 0
        invariant
            0 <= done <= flat.len(),
            done + reversed.len() == flat.len(),
            entries_view(reversed@).reverse() == flat.subrange(done, flat.len() as int),
            (entries_view(out@), strings_view(visited@)) == synthesize(
                anchor@,
                start,
                flat.take(done),
            ),
        decreases reversed.len(),
    {
        let ghost r = entries_view(reversed@);
        let ghost seen = strings_view(visited@);
        let ghost sofar = entries_view(out@);
        let e = reversed.pop().unwrap();
        proof {
            assert(entries_view(reversed@) =~= r.drop_last());
            assert(r.reverse()[0] == e@);
            assert(flat[done] == e@);
            assert(r.drop_last().reverse() =~= r.reverse().subrange(1, r.len() as int));
            assert(r.reverse().subrange(1, r.len() as int) =~= flat.subrange(
                done + 1,
                flat.len() as int,
            ));
            assert(flat.take(done + 1).drop_last() =~= flat.take(done));
            assert(flat.take(done + 1).last() == e@);
        }
        match place(anchor, e.path()) {
            Placed::Outside => {},
            Placed::Direct => {
                out.push(e);
                proof {
                    assert(entries_view(out@) =~= sofar.push(e@));
                }
            },
            Placed::Under(d) => {
                if !is_visited(visited, &d) {
                    let dir = Entry::new(d.as_str(), Metadata::new(EntryMode::DIR));
                    out.push(dir);
                    visited.push(d);
                    proof {
                        assert(entries_view(out@) =~= sofar.push(dir_entry(d@)));
                        assert(strings_view(visited@) =~= seen.push(d@));
                    }
                }
            },
        }
        proof {
            done = done + 1;
        }
    }
    proof {
        assert(flat.take(flat.len() as int) =~= flat);
    }
    out
}

/// A pager as contracts see it.
pub struct ToHierarchyPagerView<P> {
    /// The flat pager underneath.
    pub pager: P,
    /// The anchor: the prefix whose level is listed.
    pub path: Seq<char>,
    /// The directories reported so far, in order.
    pub visited: Seq<Seq<char>>,
}

/// A pager that lists one level, over a pager that lists everything.
pub struct ToHierarchyPager<P> {
    pager: P,
    path: String,
    visited: Vec<String>,
}

impl<P> View for ToHierarchyPager<P> {
    type V = ToHierarchyPagerView<P>;

    closed spec fn view(&self) -> ToHierarchyPagerView<P> {
        ToHierarchyPagerView {
            pager: self.pager,
            path: self.path@,
            visited: strings_view(self.visited@),
        }
    }
}

/// The anchor for a listing of `path`: the path itself, but for the root,
/// whose entries carry no leading slash.
pub open spec fn anchor_of(path: Seq<char>) -> Seq<char> {
    if path == "/"@ {
        Seq::empty()
    } else {
        path
    }
}

/// Lists the level of `path` out of `pager`, which lists everything under it.
pub fn to_hierarchy_pager<P>(pager: P, path: &str) -> (r: ToHierarchyPager<P>)
    ensures
        r@ == (ToHierarchyPagerView { pager, path: anchor_of(path@), visited: Seq::empty() }),
{
    let anchor = if path.unicode_len() == 1 && path.get_char(0) == '/' {
        proof {
            reveal_strlit("/");
            assert(path@ =~= "/"@);
        }
        String::new()
    } else {
        proof {
            reveal_strlit("/");
        }
        path.to_owned()
    };
    let r = ToHierarchyPager { pager, path: anchor, visited: Vec::new() };
    proof {
        assert(strings_view(r.visited@) =~= Seq::<Seq<char>>::empty());
    }
    r
}

impl<P> ToHierarchyPager<P> {
    /// Turns one batch of the flat listing into one level and remembers the
    /// directories that it reports.
    pub fn absorb(&mut self, batch: Vec<Entry>) -> (out: Vec<Entry>)
        ensures
            final(self)@.pager == old(self)@.pager,
            final(self)@.path == old(self)@.path,
            (entries_view(out@), final(self)@.visited) == synthesize(
                old(self)@.path,
                old(self)@.visited,
                entries_view(batch@),
            ),
    {
        synthesize_batch(self.path.as_str(), &mut self.visited, batch)
    }
}

impl<P: Page> Page for ToHierarchyPager<P> {
    /// One call takes one batch from the flat pager. Its error or its end is
    /// handed on, and nothing else changes. A batch becomes one level, judged
    /// against the directories reported so far.
    open spec fn next_post(pre: Self, post: Self, res: Result<Option<Vec<Entry>>, Error>) -> bool {
        &&& post@.path == pre@.path
        &&& exists|inner: Result<Option<Vec<Entry>>, Error>|
            {
                &&& #[trigger] P::next_post(pre@.pager, post@.pager, inner)
                &&& match inner {
                    Err(e) => res == Err::<Option<Vec<Entry>>, Error>(e) && post@.visited
                        == pre@.visited,
                    Ok(None) => res == Ok::<Option<Vec<Entry>>, Error>(None) && post@.visited
                        == pre@.visited,
                    Ok(Some(batch)) => res matches Ok(Some(out)) && (
                        entries_view(out@),
                        post@.visited,
                    ) == synthesize(pre@.path, pre@.visited, entries_view(batch@)),
                }
            }
    }

    fn next(&mut self) -> (res: Result<Option<Vec<Entry>>, Error>) {
        let inner = self.pager.next();
        let ghost taken = inner;
        let res = match inner {
            Err(e) => Err(e),
            Ok(None) => Ok(None),
            Ok(Some(batch)) => Ok(Some(self.absorb(batch))),
        };
        proof {
            assert(P::next_post(old(self)@.pager, self@.pager, taken));
        }
        res
    }
}

} // verus!
