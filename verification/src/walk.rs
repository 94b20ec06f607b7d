//! Choosing the files to format from what a walk through a directory comes across.

use vstd::prelude::*;

use crate::filter::Filters;
#[allow(unused_imports)]
use crate::filter::Rules;

verus! {

/// Something found in the file system.
#[derive(Debug, Clone, PartialEq, Eq)]
pub struct Entry {
    /// The path, where it is Unicode.
    pub path: Option<String>,
    /// How far below the root of the walk it lies.
    pub depth: usize,
    pub is_dir: bool,
    pub is_file: bool,
}

/// One item of a walk.
#[derive(Debug, Clone, PartialEq, Eq)]
pub enum Visited {
    /// Something that could not be read.
    Failed,
    Found(Entry),
}

/// An entry, with its path as characters.
pub ghost struct EntryView {
    pub path: Option<Seq<char>>,
    pub depth: nat,
    pub is_dir: bool,
    pub is_file: bool,
}

impl View for Entry {
    type V = EntryView;

    open spec fn view(&self) -> EntryView {
        EntryView {
            path: self.path.deep_view(),
            depth: self.depth as nat,
            is_dir: self.is_dir,
            is_file: self.is_file,
        }
    }
}

impl DeepView for Visited {
    type V = Option<EntryView>;

    /// The entry, or `None` for what could not be read.
    open spec fn deep_view(&self) -> Option<EntryView> {
        match self {
            Visited::Failed => None,
            Visited::Found(entry) => Some(entry@),
        }
    }
}

/// Whether the walk turns the entry down: its path is excluded, or is not Unicode.
pub open spec fn turned_down(rules: Rules, entry: EntryView) -> bool {
    match entry.path {
        Some(path) => rules.excluded.contains(path),
        None => true,
    }
}

/// Whether the entry, seen for itself, is a file to format.
pub open spec fn wanted(rules: Rules, entry: EntryView) -> bool {
    &&& !turned_down(rules, entry)
    &&& entry.is_file
    &&& rules.included.contains(entry.path->0)
}

/// Whether item `i` lies below the entry `j`: everything from there to here is deeper. A walk
/// lists each directory before what it holds.
pub open spec fn lies_below(walk: Seq<Option<EntryView>>, i: int, j: int) -> bool {
    &&& 0 <= j < i < walk.len()
    &&& walk[j] is Some
    &&& walk[i] is Some
    &&& forall|k: int|
        j < k <= i && (#[trigger] walk[k]) is Some ==> walk[k]->0.depth > walk[j]->0.depth
}

/// Whether the entry is a directory that the walk turns down.
pub open spec fn cut_off(rules: Rules, item: Option<EntryView>) -> bool {
    item is Some && item->0.is_dir && turned_down(rules, item->0)
}

/// Whether item `i` lies below a directory that the walk turns down.
pub open spec fn hidden(rules: Rules, walk: Seq<Option<EntryView>>, i: int) -> bool {
    exists|j: int| #[trigger] lies_below(walk, i, j) && cut_off(rules, walk[j])
}

/// Whether item `i` is a file to format.
pub open spec fn taken(rules: Rules, walk: Seq<Option<EntryView>>, i: int) -> bool {
    &&& walk[i] is Some
    &&& wanted(rules, walk[i]->0)
    &&& !hidden(rules, walk, i)
}

/// The paths of the files to format, in the order of the walk.
pub open spec fn sources(rules: Rules, walk: Seq<Option<EntryView>>) -> Seq<Seq<char>>
    decreases walk.len(),
{
    if walk.len() == 0 {
        seq![]
    } else if taken(rules, walk, walk.len() - 1) {
        sources(rules, walk.drop_last()).push(walk.last()->0.path->0)
    } else {
        sources(rules, walk.drop_last())
    }
}

/// The depth of the directory below which everything is hidden at the end of the walk.
spec fn cut_depth(rules: Rules, walk: Seq<Option<EntryView>>) -> Option<nat>
    decreases walk.len(),
{
    if walk.len() == 0 {
        None
    } else {
        let before = cut_depth(rules, walk.drop_last());
        match walk.last() {
            None => before,
            Some(entry) => if before is Some && entry.depth > before->0 {
                before
            } else if cut_off(rules, Some(entry)) {
                Some(entry.depth)
            } else {
                None
            },
        }
    }
}

/// Whether the next entry of the walk would be hidden by `j`, were it deep enough.
spec fn open_cut(rules: Rules, walk: Seq<Option<EntryView>>, j: int) -> bool {
    &&& 0 <= j < walk.len()
    &&& cut_off(rules, walk[j])
    &&& forall|k: int|
        j < k < walk.len() && (#[trigger] walk[k]) is Some ==> walk[k]->0.depth > walk[j]->0.depth
}

proof fn lemma_cut_depth(rules: Rules, walk: Seq<Option<EntryView>>)
    ensures
        match cut_depth(rules, walk) {
            None => forall|j: int| !open_cut(rules, walk, j),
            Some(depth) => {
                &&& exists|j: int| #[trigger] open_cut(rules, walk, j) && walk[j]->0.depth == depth
                &&& forall|j: int| #[trigger] open_cut(rules, walk, j) ==> walk[j]->0.depth >= depth
            },
        },
    decreases walk.len(),
{
    if walk.len() > 0 {
        let init = walk.drop_last();
        let n = walk.len() - 1;
        lemma_cut_depth(rules, init);
        assert forall|j: int| 0 <= j < n implies (#[trigger] open_cut(rules, walk, j) <==> (
        open_cut(rules, init, j) && (walk[n] is Some ==> walk[n]->0.depth > walk[j]->0.depth))) by {
            assert(walk[j] == init[j]);
            if open_cut(rules, walk, j) {
                assert forall|k: int| j < k < init.len() && (#[trigger] init[k]) is Some implies
                    init[k]->0.depth > init[j]->0.depth by {
                    assert(walk[k] == init[k]);
                }
            }
            if open_cut(rules, init, j) {
                assert forall|k: int|
                    j < k < walk.len() && (#[trigger] walk[k]) is Some && (walk[n] is Some
                        ==> walk[n]->0.depth > walk[j]->0.depth) implies walk[k]->0.depth
                    > walk[j]->0.depth by {
                    if k < n {
                        assert(walk[k] == init[k]);
                    }
                }
            }
        }
        assert(open_cut(rules, walk, n) <==> cut_off(rules, walk[n]));
        let before = cut_depth(rules, init);
        if before is Some && (walk[n] is None || walk[n]->0.depth > before->0) {
            let j = choose|j: int|
                #[trigger] open_cut(rules, init, j) && init[j]->0.depth == before->0;
            assert(open_cut(rules, walk, j));
        }
    }
}

proof fn lemma_hidden_last(rules: Rules, walk: Seq<Option<EntryView>>)
    requires
        walk.len() > 0,
        walk.last() is Some,
    ensures
        hidden(rules, walk, walk.len() - 1) <==> {
            &&& cut_depth(rules, walk.drop_last()) is Some
            &&& walk.last()->0.depth > cut_depth(rules, walk.drop_last())->0
        },
{
    let init = walk.drop_last();
    let n = walk.len() - 1;
    lemma_cut_depth(rules, init);
    assert forall|j: int| 0 <= j < n implies ((#[trigger] lies_below(walk, n, j) && cut_off(
        rules,
        walk[j],
    )) <==> (open_cut(rules, init, j) && walk[n]->0.depth > walk[j]->0.depth)) by {
        assert(walk[j] == init[j]);
        if lies_below(walk, n, j) {
            assert forall|k: int| j < k < init.len() && (#[trigger] init[k]) is Some implies
                init[k]->0.depth > init[j]->0.depth by {
                assert(walk[k] == init[k]);
            }
            assert(walk[n] is Some);
        }
        if open_cut(rules, init, j) && walk[n]->0.depth > walk[j]->0.depth {
            assert forall|k: int| j < k <= n && (#[trigger] walk[k]) is Some implies
                walk[k]->0.depth > walk[j]->0.depth by {
                if k < n {
                    assert(walk[k] == init[k]);
                }
            }
        }
    }
    if hidden(rules, walk, n) {
        let j = choose|j: int| #[trigger] lies_below(walk, n, j) && cut_off(rules, walk[j]);
        assert(open_cut(rules, init, j));
    }
    if cut_depth(rules, init) is Some && walk[n]->0.depth > cut_depth(rules, init)->0 {
        let j = choose|j: int|
            #[trigger] open_cut(rules, init, j) && init[j]->0.depth == cut_depth(rules, init)->0;
        assert(lies_below(walk, n, j) && cut_off(rules, walk[j]));
    }
}

/// What is to be done about an entry that no directory above it hides.
#[derive(Debug, Clone, Copy, PartialEq, Eq)]
pub enum Verdict {
    /// It is a file to format.
    Take,
    /// It is passed over.
    Pass,
    /// It is a directory whose contents are passed over too.
    SkipDir,
}

/// Judges an entry, given what the two filters say of its path.
pub fn judge(entry: &Entry, excluded: bool, included: bool) -> (verdict: Verdict)
    ensures
        verdict == Verdict::Take <==> entry.path is Some && !excluded && entry.is_file && included,
        verdict == Verdict::SkipDir <==> entry.is_dir && (entry.path is None || excluded),
{
    if entry.path.is_none() || excluded {
        if entry.is_dir {
            Verdict::SkipDir
        } else {
            Verdict::Pass
        }
    } else if entry.is_file && included {
        Verdict::Take
    } else {
        Verdict::Pass
    }
}

/// Judges an entry by the filters. Exclusion is looked at first.
pub fn visit_entry(filters: &Filters, entry: &Entry) -> (verdict: Verdict)
    ensures
        verdict == Verdict::Take <==> {
            &&& entry.path matches Some(path)
            &&& entry.is_file
            &&& filters.rules().included.contains(path@)
            &&& !filters.rules().excluded.contains(path@)
        },
        verdict == Verdict::SkipDir <==> entry.is_dir && (entry.path matches Some(path)
            ==> filters.rules().excluded.contains(path@)),
        verdict == Verdict::Take <==> wanted(filters.rules(), entry@),
        verdict == Verdict::SkipDir <==> cut_off(filters.rules(), Some(entry@)),
{
    match &entry.path {
        None => judge(entry, false, false),
        Some(path) => {
            let excluded = filters.excludes(path.as_str());
            let included = !excluded && entry.is_file && filters.includes(path.as_str());
            judge(entry, excluded, included)
        },
    }
}

/// A walk in progress.
pub struct Walk<'a> {
    filters: &'a Filters,
    cut: Option<usize>,
    found: Vec<String>,
    seen: Ghost<Seq<Option<EntryView>>>,
}

impl<'a> Walk<'a> {
    /// The filters that decide.
    pub closed spec fn filters(self) -> Filters {
        *self.filters
    }

    /// What the walk has come across so far.
    pub closed spec fn seen(self) -> Seq<Option<EntryView>> {
        self.seen@
    }

    /// The files found so far are those to format among the items seen so far.
    pub closed spec fn wf(self) -> bool {
        &&& cut_depth(self.filters.rules(), self.seen@) == match self.cut {
            Some(depth) => Some(depth as nat),
            None => None,
        }
        &&& self.found.deep_view() == sources(self.filters.rules(), self.seen@)
    }

    /// Sets out.
    pub fn new(filters: &'a Filters) -> (walk: Self)
        ensures
            walk.wf(),
            walk.filters() == *filters,
            walk.seen() == Seq::<Option<EntryView>>::empty(),
    {
        let seen: Ghost<Seq<Option<EntryView>>> = Ghost(Seq::empty());
        let walk = Walk { filters, cut: None, found: Vec::new(), seen };
        assert(walk.found.deep_view() == Seq::<Seq<char>>::empty());
        walk
    }

    /// Takes note of the next item. The answer is whether it is a directory whose contents the
    /// walk may skip.
    pub fn visit(&mut self, item: &Visited) -> (skip_dir: bool)
        requires
            old(self).wf(),
        ensures
            final(self).wf(),
            final(self).filters() == old(self).filters(),
            final(self).seen() == old(self).seen().push(item.deep_view()),
            skip_dir <==> {
                &&& cut_off(old(self).filters().rules(), item.deep_view())
                &&& !hidden(
                    old(self).filters().rules(),
                    final(self).seen(),
                    old(self).seen().len() as int,
                )
            },
    {
        let ghost rules = self.filters.rules();
        let ghost before = self.seen@;
        let ghost after = before.push(item.deep_view());
        let ghost found_before = self.found.deep_view();
        self.seen = Ghost(after);
        assert(after.drop_last() == before);
        match item {
            Visited::Failed => false,
            Visited::Found(entry) => {
                proof {
                    lemma_hidden_last(rules, after);
                }
                if let Some(depth) = self.cut {
                    if entry.depth > depth {
                        return false;
                    }
                }
                self.cut = None;
                match visit_entry(self.filters, entry) {
                    Verdict::SkipDir => {
                        self.cut = Some(entry.depth);
                        true
                    },
                    Verdict::Take => {
                        if let Some(path) = &entry.path {
                            self.found.push(path.clone());
                            assert(self.found.deep_view() == found_before.push(path@));
                        }
                        false
                    },
                    Verdict::Pass => false,
                }
            },
        }
    }

    /// The files to format among what the walk came across.
    pub fn finish(self) -> (found: Vec<String>)
        requires
            self.wf(),
        ensures
            found.deep_view() == sources(self.filters().rules(), self.seen()),
    {
        self.found
    }
}

/// The files to format among the items of a whole walk, in their order.
pub fn collect_sources(filters: &Filters, items: &Vec<Visited>) -> (found: Vec<String>)
    ensures
        found.deep_view() == sources(filters.rules(), items.deep_view()),
{
    let mut walk = Walk::new(filters);
    let ghost all = items.deep_view();
    for i in 0..items.len()
        invariant
            all == items.deep_view(),
            walk.wf(),
            walk.filters() == *filters,
            walk.seen() == all.take(i as int),
    {
        walk.visit(&items[i]);
        assert(all.take(i + 1) == all.take(i as int).push(items[i as int].deep_view()));
    }
    assert(all.take(items.len() as int) == all);
    walk.finish()
}

/// The items that are marked to be kept.
pub open spec fn thinned(walk: Seq<Option<EntryView>>, keep: Seq<bool>) -> Seq<Option<EntryView>>
    decreases walk.len(),
{
    if walk.len() == 0 {
        seq![]
    } else if keep.last() {
        thinned(walk.drop_last(), keep.drop_last()).push(walk.last())
    } else {
        thinned(walk.drop_last(), keep.drop_last())
    }
}

proof fn lemma_thinned(rules: Rules, walk: Seq<Option<EntryView>>, keep: Seq<bool>)
    requires
        keep.len() == walk.len(),
        forall|i: int|
            0 <= i < walk.len() && !(#[trigger] keep[i]) ==> walk[i] is None || hidden(
                rules,
                walk,
                i,
            ),
    ensures
        sources(rules, thinned(walk, keep)) == sources(rules, walk),
        cut_depth(rules, thinned(walk, keep)) == cut_depth(rules, walk),
    decreases walk.len(),
{
    if walk.len() > 0 {
        let init = walk.drop_last();
        let n = walk.len() - 1;
        assert forall|i: int|
            0 <= i < init.len() && !(#[trigger] keep.drop_last()[i]) implies init[i] is None
            || hidden(rules, init, i) by {
            assert(!keep[i]);
            lemma_hidden_in_prefix(rules, walk, i);
        }
        lemma_thinned(rules, init, keep.drop_last());
        let thin = thinned(walk, keep);
        if keep.last() {
            assert(thin.drop_last() == thinned(init, keep.drop_last()));
            if walk.last() is Some {
                lemma_hidden_last(rules, walk);
                lemma_hidden_last(rules, thin);
            }
        } else {
            assert(!keep[n]);
            if walk.last() is Some {
                lemma_hidden_last(rules, walk);
            }
        }
    }
}

proof fn lemma_hidden_in_prefix(rules: Rules, walk: Seq<Option<EntryView>>, i: int)
    requires
        0 <= i < walk.len() - 1,
    ensures
        hidden(rules, walk, i) <==> hidden(rules, walk.drop_last(), i),
{
    let init = walk.drop_last();
    assert forall|j: int| lies_below(walk, i, j) <==> #[trigger] lies_below(init, i, j) by {
        if lies_below(walk, i, j) {
            assert forall|k: int| j < k <= i && (#[trigger] init[k]) is Some implies
                init[k]->0.depth > init[j]->0.depth by {
                assert(walk[k] == init[k]);
            }
        }
        if lies_below(init, i, j) {
            assert forall|k: int| j < k <= i && (#[trigger] walk[k]) is Some implies
                walk[k]->0.depth > walk[j]->0.depth by {
                assert(walk[k] == init[k]);
            }
        }
    }
    if hidden(rules, walk, i) {
        let j = choose|j: int| #[trigger] lies_below(walk, i, j) && cut_off(rules, walk[j]);
        assert(lies_below(init, i, j) && cut_off(rules, init[j]));
    }
    if hidden(rules, init, i) {
        let j = choose|j: int| #[trigger] lies_below(init, i, j) && cut_off(rules, init[j]);
        assert(lies_below(walk, i, j) && cut_off(rules, walk[j]));
    }
}

/// A walk that does not go into the directories it turns down finds the same files: items
/// below such directories, and items that could not be read, may be left out of it.
pub proof fn skipping_finds_the_same_files(
    rules: Rules,
    walk: Seq<Option<EntryView>>,
    keep: Seq<bool>,
)
    requires
        keep.len() == walk.len(),
        forall|i: int|
            0 <= i < walk.len() && !(#[trigger] keep[i]) ==> walk[i] is None || hidden(
                rules,
                walk,
                i,
            ),
    ensures
        sources(rules, thinned(walk, keep)) == sources(rules, walk),
{
    lemma_thinned(rules, walk, keep);
}

/// A path is among the sources exactly if it is that of an item to take. So no source is
/// excluded, or lies below an excluded directory, whatever else lets it in.
pub proof fn sources_are_the_taken_items(
    rules: Rules,
    walk: Seq<Option<EntryView>>,
    path: Seq<char>,
)
    ensures
        sources(rules, walk).contains(path) <==> exists|i: int|
            0 <= i < walk.len() && #[trigger] taken(rules, walk, i) && walk[i]->0.path == Some(
                path,
            ),
        sources(rules, walk).contains(path) ==> !rules.excluded.contains(path)
            && rules.included.contains(path),
    decreases walk.len(),
{
    if walk.len() > 0 {
        let init = walk.drop_last();
        let n = walk.len() - 1;
        sources_are_the_taken_items(rules, init, path);
        assert forall|i: int| 0 <= i < n implies (#[trigger] taken(rules, walk, i) <==> taken(
            rules,
            init,
            i,
        )) by {
            lemma_hidden_in_prefix(rules, walk, i);
        }
        let inner = sources(rules, init);
        let whole = sources(rules, walk);
        if whole.contains(path) {
            let k = choose|k: int| 0 <= k < whole.len() && whole[k] == path;
            if k < inner.len() {
                assert(inner[k] == path);
                let i = choose|i: int|
                    0 <= i < init.len() && #[trigger] taken(rules, init, i) && init[i]->0.path
                        == Some(path);
                assert(taken(rules, walk, i) && walk[i]->0.path == Some(path));
            } else {
                assert(taken(rules, walk, n) && walk[n]->0.path == Some(path));
            }
        }
        if exists|i: int|
            0 <= i < walk.len() && #[trigger] taken(rules, walk, i) && walk[i]->0.path == Some(
                path,
            ) {
            let i = choose|i: int|
                0 <= i < walk.len() && #[trigger] taken(rules, walk, i) && walk[i]->0.path == Some(
                    path,
                );
            if i < n {
                assert(taken(rules, init, i) && init[i]->0.path == Some(path));
                let k = choose|k: int| 0 <= k < inner.len() && inner[k] == path;
                assert(whole[k] == path);
            } else {
                assert(whole[whole.len() - 1] == path);
            }
        }
    }
}

/// Whether the walk comes across no path twice.
pub open spec fn lists_once(walk: Seq<Option<EntryView>>) -> bool {
    forall|i: int, j: int|
        0 <= i < j < walk.len() && (#[trigger] walk[i]) is Some && (#[trigger] walk[j]) is Some
            && walk[i]->0.path is Some ==> walk[i]->0.path != walk[j]->0.path
}

/// A walk that comes across no path twice takes no path twice.
pub proof fn no_source_comes_twice(rules: Rules, walk: Seq<Option<EntryView>>)
    requires
        lists_once(walk),
    ensures
        sources(rules, walk).no_duplicates(),
    decreases walk.len(),
{
    if walk.len() > 0 {
        let init = walk.drop_last();
        let n = walk.len() - 1;
        assert(lists_once(init)) by {
            assert forall|i: int, j: int|
                0 <= i < j < init.len() && (#[trigger] init[i]) is Some && (
                #[trigger] init[j]) is Some && init[i]->0.path is Some implies init[i]->0.path
                != init[j]->0.path by {
                assert(walk[i] == init[i] && walk[j] == init[j]);
            }
        }
        no_source_comes_twice(rules, init);
        if taken(rules, walk, n) {
            let path = walk[n]->0.path->0;
            sources_are_the_taken_items(rules, init, path);
            assert(!sources(rules, init).contains(path)) by {
                if sources(rules, init).contains(path) {
                    let i = choose|i: int|
                        0 <= i < init.len() && #[trigger] taken(rules, init, i)
                            && init[i]->0.path == Some(path);
                    assert(walk[i] == init[i]);
                }
            }
        }
    }
}

/// Where no path is excluded, and every path is Unicode, the sources are the included files.
pub proof fn nothing_excluded_takes_all_included_files(
    rules: Rules,
    walk: Seq<Option<EntryView>>,
    i: int,
)
    requires
        rules.excluded == Set::<Seq<char>>::empty(),
        forall|k: int|
            0 <= k < walk.len() && (#[trigger] walk[k]) is Some ==> walk[k]->0.path is Some,
        0 <= i < walk.len(),
    ensures
        taken(rules, walk, i) <==> {
            &&& walk[i] is Some
            &&& walk[i]->0.is_file
            &&& rules.included.contains(walk[i]->0.path->0)
        },
{
}

/// What one more item of a walk adds: its path, if it is a file, at whatever depth, whose path
/// is Unicode, included and not excluded, and that lies below no directory whose path is
/// excluded or not Unicode. Otherwise it adds nothing.
pub proof fn one_more_item(rules: Rules, walk: Seq<Option<EntryView>>, item: Option<EntryView>)
    ensures
        sources(rules, seq![]) == Seq::<Seq<char>>::empty(),
        ({
            let longer = walk.push(item);
            let in_the_open = forall|j: int|
                0 <= j < walk.len() && (#[trigger] walk[j]) is Some && walk[j]->0.is_dir && (
                walk[j]->0.path is None || rules.excluded.contains(walk[j]->0.path->0))
                    ==> exists|k: int|
                    j < k < longer.len() && (#[trigger] longer[k]) is Some && longer[k]->0.depth
                        <= walk[j]->0.depth;
            sources(rules, longer) == if item is Some && item->0.is_file && item->0.path is Some
                && rules.included.contains(item->0.path->0) && !rules.excluded.contains(
                item->0.path->0,
            ) && in_the_open {
                sources(rules, walk).push(item->0.path->0)
            } else {
                sources(rules, walk)
            }
        }),
{
    let longer = walk.push(item);
    let n = walk.len() as int;
    assert(longer.drop_last() == walk);
    if item is Some {
        if hidden(rules, longer, n) {
            let j = choose|j: int| #[trigger] lies_below(longer, n, j) && cut_off(rules, longer[j]);
            assert(walk[j] == longer[j]);
            assert forall|k: int| j < k < longer.len() && (#[trigger] longer[k]) is Some implies
                longer[k]->0.depth > walk[j]->0.depth by {}
        } else {
            assert forall|j: int|
                0 <= j < walk.len() && (#[trigger] walk[j]) is Some && walk[j]->0.is_dir && (
                walk[j]->0.path is None || rules.excluded.contains(
                    walk[j]->0.path->0,
                )) implies exists|k: int|
                j < k < longer.len() && (#[trigger] longer[k]) is Some && longer[k]->0.depth
                    <= walk[j]->0.depth by {
                assert(longer[j] == walk[j]);
                assert(!lies_below(longer, n, j));
            }
        }
    }
}

/// A file is collected, at whatever depth, if its path is Unicode, included and not excluded
/// and each directory that is excluded or not Unicode has ended before it.
pub proof fn files_in_the_open_are_collected(rules: Rules, walk: Seq<Option<EntryView>>, i: int)
    requires
        0 <= i < walk.len(),
        walk[i] is Some,
        walk[i]->0.is_file,
        walk[i]->0.path is Some,
        rules.included.contains(walk[i]->0.path->0),
        !rules.excluded.contains(walk[i]->0.path->0),
        forall|j: int|
            0 <= j < i && (#[trigger] walk[j]) is Some && walk[j]->0.is_dir && (walk[j]->0.path
                is None || rules.excluded.contains(walk[j]->0.path->0)) ==> exists|k: int|
                j < k <= i && (#[trigger] walk[k]) is Some && walk[k]->0.depth <= walk[j]->0.depth,
    ensures
        sources(rules, walk).contains(walk[i]->0.path->0),
{
    assert(!hidden(rules, walk, i)) by {
        if hidden(rules, walk, i) {
            let j = choose|j: int| #[trigger] lies_below(walk, i, j) && cut_off(rules, walk[j]);
            let k = choose|k: int|
                j < k <= i && (#[trigger] walk[k]) is Some && walk[k]->0.depth
                    <= walk[j]->0.depth;
            assert(walk[k]->0.depth > walk[j]->0.depth);
        }
    }
    assert(taken(rules, walk, i));
    sources_are_the_taken_items(rules, walk, walk[i]->0.path->0);
}

/// Whatever is collected is a file of the walk whose path is included and not excluded, and no
/// directory that is excluded or not Unicode holds it.
pub proof fn collected_files_lie_in_the_open(
    rules: Rules,
    walk: Seq<Option<EntryView>>,
    path: Seq<char>,
)
    requires
        sources(rules, walk).contains(path),
    ensures
        rules.included.contains(path),
        !rules.excluded.contains(path),
        exists|i: int|
            0 <= i < walk.len() && (#[trigger] walk[i]) is Some && walk[i]->0.is_file
                && walk[i]->0.path == Some(path) && forall|j: int|
                0 <= j < i && (#[trigger] walk[j]) is Some && walk[j]->0.is_dir && (
                walk[j]->0.path is None || rules.excluded.contains(walk[j]->0.path->0))
                    ==> exists|k: int|
                    j < k <= i && (#[trigger] walk[k]) is Some && walk[k]->0.depth
                        <= walk[j]->0.depth,
{
    sources_are_the_taken_items(rules, walk, path);
    let i = choose|i: int|
        0 <= i < walk.len() && #[trigger] taken(rules, walk, i) && walk[i]->0.path == Some(path);
    assert forall|j: int|
        0 <= j < i && (#[trigger] walk[j]) is Some && walk[j]->0.is_dir && (walk[j]->0.path is None
            || rules.excluded.contains(walk[j]->0.path->0)) implies exists|k: int|
        j < k <= i && (#[trigger] walk[k]) is Some && walk[k]->0.depth <= walk[j]->0.depth by {
        assert(!lies_below(walk, i, j));
    }
    assert(walk[i] is Some);
}

/// An item is hidden exactly if some directory before it is excluded or not Unicode, and
/// everything from there to here is deeper than that directory.
pub proof fn what_hides_an_item(rules: Rules, walk: Seq<Option<EntryView>>, i: int)
    requires
        0 <= i < walk.len(),
        walk[i] is Some,
    ensures
        hidden(rules, walk, i) <==> exists|j: int|
            0 <= j < i && (#[trigger] walk[j]) is Some && walk[j]->0.is_dir && (walk[j]->0.path
                is None || rules.excluded.contains(walk[j]->0.path->0)) && forall|k: int|
                j < k <= i && (#[trigger] walk[k]) is Some ==> walk[k]->0.depth
                    > walk[j]->0.depth,
{
    if hidden(rules, walk, i) {
        let j = choose|j: int| #[trigger] lies_below(walk, i, j) && cut_off(rules, walk[j]);
        assert(walk[j] is Some);
    }
    if exists|j: int|
        0 <= j < i && (#[trigger] walk[j]) is Some && walk[j]->0.is_dir && (walk[j]->0.path is None
            || rules.excluded.contains(walk[j]->0.path->0)) && forall|k: int|
            j < k <= i && (#[trigger] walk[k]) is Some ==> walk[k]->0.depth > walk[j]->0.depth {
        let j = choose|j: int|
            0 <= j < i && (#[trigger] walk[j]) is Some && walk[j]->0.is_dir && (walk[j]->0.path
                is None || rules.excluded.contains(walk[j]->0.path->0)) && forall|k: int|
                j < k <= i && (#[trigger] walk[k]) is Some ==> walk[k]->0.depth
                    > walk[j]->0.depth;
        assert(lies_below(walk, i, j) && cut_off(rules, walk[j]));
    }
}

/// The view of an item shows all of it.
pub proof fn the_view_shows_the_whole_item(item: Visited)
    ensures
        item is Failed ==> item.deep_view() is None,
        item matches Visited::Found(entry) ==> {
            &&& item.deep_view() == Some(entry@)
            &&& entry.path matches Some(path) ==> entry@.path == Some(path@)
            &&& entry.path is None ==> entry@.path is None
            &&& entry@.depth == entry.depth
            &&& entry@.is_dir == entry.is_dir
            &&& entry@.is_file == entry.is_file
        },
{
}

} // verus!
