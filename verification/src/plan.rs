//! What a run of the client sets out to do.

use vstd::prelude::*;

use crate::config::{BlaccConfig, BlackConfig};
use crate::error::Failure;
#[allow(unused_imports)]
use crate::config::{given_patterns_are_set, overridden, BlackConfigView, Options};
#[allow(unused_imports)]
use crate::error::ErrorKind;
use crate::filter::{build_filters, Filters};
#[allow(unused_imports)]
use crate::filter::{configured_rules, Rules};
#[allow(unused_imports)]
use crate::format::{
    after_answer, after_reading, after_writing, every_source_is_reported, outcome, ActionTaken, Step,
};
#[allow(unused_imports)]
use crate::walk::{lists_once, no_source_comes_twice, sources, EntryView};

verus! {

/// What there is to format.
#[derive(Debug, PartialEq, Eq)]
pub enum Work {
    /// No source is named.
    Nothing,
    /// The standard input.
    Stdin,
    /// The files at and below these paths.
    Paths(Vec<String>),
}

impl Work {
    /// Whether this is the work that the sources name: a single `-` is the standard input.
    pub open spec fn is_for(self, srcs: Seq<Seq<char>>) -> bool {
        if srcs.len() == 0 {
            self is Nothing
        } else if srcs.len() == 1 && srcs[0] == "-"@ {
            self is Stdin
        } else {
            self matches Work::Paths(paths) && paths.deep_view() == srcs
        }
    }
}

/// What is needed for a run.
#[derive(Debug)]
pub struct Plan {
    pub url: String,
    pub config: BlackConfig,
    pub filters: Filters,
    pub work: Work,
}

/// The level of output: one more than how often more output was asked for.
pub fn log_level(config: &BlaccConfig) -> (level: usize)
    requires
        config.verbosity < usize::MAX,
    ensures
        level == config.verbosity + 1,
{
    config.verbosity + 1
}

/// Finds out what the sources ask for.
pub fn plan_work(srcs: Vec<String>) -> (work: Work)
    ensures
        work.is_for(srcs.deep_view()),
{
    if srcs.len() == 0 {
        Work::Nothing
    } else if srcs.len() == 1 && srcs[0] == "-".to_owned() {
        Work::Stdin
    } else {
        Work::Paths(srcs)
    }
}

/// Prepares a run. It fails where a pattern is missing or invalid.
pub fn run(config: BlaccConfig, black_config: BlackConfig) -> (plan: Result<
    Plan,
    Failure<regex::Error>,
>)
    ensures
        match configured_rules(black_config@.exclude, black_config@.include_pattern) {
            Ok(rules) => {
                &&& plan matches Ok(plan)
                &&& plan.url@ == config.url@
                &&& plan.config@ == black_config@
                &&& plan.filters.rules() == rules
                &&& plan.work.is_for(config.srcs.deep_view())
            },
            Err(failure) => plan == Err::<Plan, _>(failure),
        },
{
    match build_filters(&black_config.exclude, &black_config.include_pattern) {
        Ok(filters) => Ok(
            Plan {
                url: config.url,
                config: black_config,
                filters,
                work: plan_work(config.srcs),
            },
        ),
        Err(failure) => Err(failure),
    }
}

/// Where the command line gives both patterns, be it the defaults, a run is never refused for
/// want of one.
pub proof fn given_patterns_are_never_missing(file: BlackConfigView, options: Options)
    requires
        options.exclude is Some,
        options.include_pattern is Some,
    ensures
        configured_rules(
            overridden(file, options).exclude,
            overridden(file, options).include_pattern,
        ) matches Err(failure) ==> failure.kind == ErrorKind::InvalidExclude || failure.kind
            == ErrorKind::InvalidInclude,
{
    given_patterns_are_set(file, options);
}

/// The files of a run: what the walk of each source takes, source after source.
pub open spec fn run_files(rules: Rules, walks: Seq<Seq<Option<EntryView>>>) -> Seq<Seq<char>>
    decreases walks.len(),
{
    if walks.len() == 0 {
        seq![]
    } else {
        run_files(rules, walks.drop_last()) + sources(rules, walks.last())
    }
}

/// How many of the walks take the path.
pub open spec fn takers(
    rules: Rules,
    walks: Seq<Seq<Option<EntryView>>>,
    path: Seq<char>,
) -> nat
    decreases walks.len(),
{
    if walks.len() == 0 {
        0
    } else if sources(rules, walks.last()).contains(path) {
        takers(rules, walks.drop_last(), path) + 1
    } else {
        takers(rules, walks.drop_last(), path)
    }
}

/// How one file of a run fared: what came of reading it, of the request and of writing, and the
/// steps that followed.
pub ghost struct FileRun<E> {
    pub contents: Result<Vec<u8>, Failure<E>>,
    pub answer: Result<u16, Failure<E>>,
    pub written: Result<(), Failure<E>>,
    pub read: Step<E>,
    pub answered: Step<E>,
    pub wrote: Step<E>,
}

impl<E> FileRun<E> {
    /// Whether each step is the one that follows for a file of that name.
    pub open spec fn goes(self, url: Seq<char>, config: BlackConfigView, fname: Seq<char>) -> bool {
        &&& after_reading(self.contents, url, config, Some(fname), self.read)
        &&& after_answer(self.answer, Some(fname), self.answered)
        &&& after_writing(self.written, Some(fname), self.wrote)
    }

    /// The step with which the file is done.
    pub open spec fn last_step(self) -> Step<E> {
        match self.read {
            Step::Send(_) => match self.answered {
                Step::Write(_) => self.wrote,
                _ => self.answered,
            },
            _ => self.read,
        }
    }

    /// What is reported of the file in the end.
    pub open spec fn outcome(self) -> Result<ActionTaken, Failure<E>> {
        outcome(self.contents, self.answer, self.written)
    }
}

/// Whether every file of a run goes as it should.
pub open spec fn all_go<E>(
    url: Seq<char>,
    config: BlackConfigView,
    files: Seq<Seq<char>>,
    runs: Seq<FileRun<E>>,
) -> bool {
    &&& runs.len() == files.len()
    &&& forall|i: int| 0 <= i < files.len() ==> (#[trigger] runs[i]).goes(url, config, files[i])
}

/// The files that could be read, with their contents.
pub open spec fn readable<E>(files: Seq<Seq<char>>, runs: Seq<FileRun<E>>) -> Seq<
    (Seq<char>, Seq<u8>),
>
    decreases files.len(),
{
    if files.len() == 0 {
        seq![]
    } else {
        let before = readable(files.drop_last(), runs.drop_last());
        match runs.last().contents {
            Ok(bytes) => before.push((files.last(), bytes@)),
            Err(_) => before,
        }
    }
}

/// The files for which a request is sent, with the body of the request.
pub open spec fn sent<E>(files: Seq<Seq<char>>, runs: Seq<FileRun<E>>) -> Seq<
    (Seq<char>, Seq<u8>),
>
    decreases files.len(),
{
    if files.len() == 0 {
        seq![]
    } else {
        let before = sent(files.drop_last(), runs.drop_last());
        match runs.last().read {
            Step::Send(request) => before.push((files.last(), request.body@)),
            _ => before,
        }
    }
}

/// A file comes up once for each source whose walk takes it, so twice where two sources do.
pub proof fn files_come_up_once_per_source(
    rules: Rules,
    walks: Seq<Seq<Option<EntryView>>>,
    path: Seq<char>,
)
    requires
        forall|i: int| 0 <= i < walks.len() ==> lists_once(#[trigger] walks[i]),
    ensures
        run_files(rules, walks).to_multiset().count(path) == takers(rules, walks, path),
    decreases walks.len(),
{
    let files = run_files(rules, walks);
    files.to_multiset_ensures();
    if walks.len() > 0 {
        let init = walks.drop_last();
        let found = sources(rules, walks.last());
        assert forall|i: int| 0 <= i < init.len() implies lists_once(#[trigger] init[i]) by {
            assert(init[i] == walks[i]);
        }
        files_come_up_once_per_source(rules, init, path);
        assert(lists_once(walks[walks.len() - 1]));
        no_source_comes_twice(rules, walks.last());
        found.lemma_multiset_has_no_duplicates();
        found.to_multiset_ensures();
        vstd::seq_lib::lemma_multiset_commutative(run_files(rules, init), found);
    }
}

/// Every file of a run that can be read is sent, as often as it comes up, with what was read
/// from it, and nothing else is sent. What becomes of one file stops no other.
pub proof fn every_readable_file_is_sent<E>(
    url: Seq<char>,
    config: BlackConfigView,
    files: Seq<Seq<char>>,
    runs: Seq<FileRun<E>>,
)
    requires
        all_go(url, config, files, runs),
    ensures
        sent(files, runs) == readable(files, runs),
        sent(files, runs).to_multiset() == readable(files, runs).to_multiset(),
    decreases files.len(),
{
    if files.len() > 0 {
        let n = files.len() - 1;
        assert(all_go(url, config, files.drop_last(), runs.drop_last())) by {
            assert forall|i: int| 0 <= i < n implies (#[trigger] runs.drop_last()[i]).goes(
                url,
                config,
                files.drop_last()[i],
            ) by {
                assert(runs[i].goes(url, config, files[i]));
            }
        }
        every_readable_file_is_sent(url, config, files.drop_last(), runs.drop_last());
        assert(runs[n].goes(url, config, files[n]));
    }
}

/// The requests that are sent for the file.
pub open spec fn sent_for<E>(
    path: Seq<char>,
    files: Seq<Seq<char>>,
    runs: Seq<FileRun<E>>,
) -> Seq<(Seq<char>, Seq<u8>)> {
    sent(files, runs).filter(|request: (Seq<char>, Seq<u8>)| request.0 == path)
}

proof fn lemma_sent_as_often_as_it_comes_up<E>(
    url: Seq<char>,
    config: BlackConfigView,
    files: Seq<Seq<char>>,
    runs: Seq<FileRun<E>>,
    path: Seq<char>,
)
    requires
        all_go(url, config, files, runs),
        forall|i: int|
            0 <= i < files.len() && files[i] == path ==> (#[trigger] runs[i]).contents is Ok,
    ensures
        sent_for(path, files, runs).len() == files.to_multiset().count(path),
    decreases files.len(),
{
    files.to_multiset_ensures();
    reveal(Seq::filter);
    if files.len() > 0 {
        let n = files.len() - 1;
        let init = files.drop_last();
        let init_runs = runs.drop_last();
        assert(all_go(url, config, init, init_runs)) by {
            assert forall|i: int| 0 <= i < n implies (#[trigger] init_runs[i]).goes(
                url,
                config,
                init[i],
            ) by {
                assert(runs[i].goes(url, config, files[i]));
            }
        }
        assert forall|i: int| 0 <= i < n && init[i] == path implies (
        #[trigger] init_runs[i]).contents is Ok by {
            assert(runs[i] == init_runs[i] && files[i] == init[i]);
        }
        lemma_sent_as_often_as_it_comes_up(url, config, init, init_runs, path);
        assert(runs[n].goes(url, config, files[n]));
        init.to_multiset_ensures();
        assert(files == init.push(files[n]));
        if runs[n].read is Send {
            assert(sent(files, runs).drop_last() == sent(init, init_runs));
        }
    }
}

/// A file that can be read is sent once for each source whose walk takes it.
pub proof fn readable_files_are_sent_once_per_source<E>(
    url: Seq<char>,
    config: BlackConfigView,
    rules: Rules,
    walks: Seq<Seq<Option<EntryView>>>,
    runs: Seq<FileRun<E>>,
    path: Seq<char>,
)
    requires
        forall|i: int| 0 <= i < walks.len() ==> lists_once(#[trigger] walks[i]),
        all_go(url, config, run_files(rules, walks), runs),
        forall|i: int|
            0 <= i < runs.len() && run_files(rules, walks)[i] == path ==> (
            #[trigger] runs[i]).contents is Ok,
    ensures
        sent_for(path, run_files(rules, walks), runs).len() == takers(rules, walks, path),
{
    files_come_up_once_per_source(rules, walks, path);
    lemma_sent_as_often_as_it_comes_up(url, config, run_files(rules, walks), runs, path);
}

/// Every file of a run is reported, under its own name and by its own outcomes alone: however
/// the other files fare in two runs, a file with the same outcomes is reported alike.
pub proof fn files_do_not_affect_each_other<E>(
    url: Seq<char>,
    config: BlackConfigView,
    files: Seq<Seq<char>>,
    one: Seq<FileRun<E>>,
    other: Seq<FileRun<E>>,
    i: int,
)
    requires
        all_go(url, config, files, one),
        all_go(url, config, files, other),
        0 <= i < files.len(),
        one[i].contents == other[i].contents,
        one[i].answer == other[i].answer,
        one[i].written == other[i].written,
    ensures
        one[i].last_step().reports(Some(files[i]), one[i].outcome()),
        other[i].last_step().reports(Some(files[i]), one[i].outcome()),
{
    let a = one[i];
    let b = other[i];
    assert(a.goes(url, config, files[i]) && b.goes(url, config, files[i]));
    every_source_is_reported(
        a.contents,
        a.answer,
        a.written,
        url,
        config,
        Some(files[i]),
        a.read,
        a.answered,
        a.wrote,
    );
    every_source_is_reported(
        b.contents,
        b.answer,
        b.written,
        url,
        config,
        Some(files[i]),
        b.read,
        b.answered,
        b.wrote,
    );
}

/// No sources are no work, a single `-` is the standard input, and anything else names paths,
/// all of them and in order.
pub proof fn the_work_is_what_the_sources_name(work: Work, srcs: Seq<Seq<char>>)
    requires
        work.is_for(srcs),
    ensures
        work is Nothing <==> srcs.len() == 0,
        work is Stdin <==> srcs.len() == 1 && srcs[0] == seq!['-'],
        work matches Work::Paths(paths) ==> {
            &&& paths.len() == srcs.len()
            &&& forall|i: int| 0 <= i < paths.len() ==> (#[trigger] paths[i])@ == srcs[i]
        },
{
    reveal_strlit("-");
    assert("-"@ == seq!['-']);
    if let Work::Paths(paths) = work {
        assert forall|i: int| 0 <= i < paths.len() implies (#[trigger] paths[i])@ == srcs[i] by {
            assert(paths.deep_view()[i] == paths[i]@);
        }
    }
}

/// One more source adds the files that its walk takes, after those of the others.
pub proof fn one_more_source_adds_its_files(
    rules: Rules,
    walks: Seq<Seq<Option<EntryView>>>,
    walk: Seq<Option<EntryView>>,
)
    ensures
        run_files(rules, seq![]) == Seq::<Seq<char>>::empty(),
        run_files(rules, walks.push(walk)) == run_files(rules, walks) + sources(rules, walk),
{
    assert(walks.push(walk).drop_last() == walks);
}

} // verus!
