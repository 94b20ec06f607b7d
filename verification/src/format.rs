//! Having one source formatted: the request, the answer, and what is reported.

use vstd::prelude::*;

use crate::config::BlackConfig;
#[allow(unused_imports)]
use crate::config::BlackConfigView;
use crate::error::{ErrorKind, Failure};
use crate::text::{join_with_commas, to_decimal};
#[allow(unused_imports)]
use crate::text::{comma_separated, decimal, number_in, number_is_read_back};

verus! {

/// What was done about a source.
#[derive(Debug, Clone, Copy, PartialEq, Eq)]
pub enum ActionTaken {
    Reformatted,
    Noop,
}

impl ActionTaken {
    /// The action in words.
    pub open spec fn words(self) -> Seq<char> {
        match self {
            ActionTaken::Reformatted => "reformatted"@,
            ActionTaken::Noop => "already well-formatted"@,
        }
    }

    /// Puts the action into words.
    pub fn to_string(&self) -> (text: String)
        ensures
            text@ == self.words(),
    {
        match self {
            ActionTaken::Reformatted => "reformatted".to_owned(),
            ActionTaken::Noop => "already well-formatted".to_owned(),
        }
    }
}

/// A header of a request.
#[derive(Debug, PartialEq, Eq)]
pub struct Header {
    pub name: String,
    pub value: String,
}

impl DeepView for Header {
    type V = (Seq<char>, Seq<char>);

    /// The name and the value.
    open spec fn deep_view(&self) -> (Seq<char>, Seq<char>) {
        (self.name@, self.value@)
    }
}

/// A request to the server, which is to be posted.
#[derive(Debug, PartialEq, Eq)]
pub struct Request {
    pub url: String,
    pub headers: Vec<Header>,
    pub body: Vec<u8>,
}

/// The header, if it applies.
pub open spec fn header_if(applies: bool, name: Seq<char>, value: Seq<char>) -> Seq<
    (Seq<char>, Seq<char>),
> {
    if applies {
        seq![(name, value)]
    } else {
        seq![]
    }
}

/// The headers that tell the server how to format.
pub open spec fn headers_for(config: BlackConfigView) -> Seq<(Seq<char>, Seq<char>)> {
    header_if(true, "X-Protocol-Version"@, "1"@) + header_if(
        config.pyi == Some(true),
        "X-Python-Variant"@,
        "pyi"@,
    ) + header_if(
        config.target_version is Some,
        "X-Python-Variant"@,
        comma_separated(config.target_version->0),
    ) + header_if(
        config.skip_string_normalization == Some(true),
        "X-Skip-String-Normalization"@,
        "true"@,
    ) + header_if(config.line_length is Some, "X-Line-Length"@, decimal(config.line_length->0 as nat))
        + header_if(config.fast == Some(true), "X-Fast-Or-Safe"@, "fast"@)
}

impl Request {
    /// Whether this is the request to format those bytes.
    pub open spec fn asks(self, url: Seq<char>, config: BlackConfigView, bytes: Seq<u8>) -> bool {
        &&& self.url@ == url
        &&& self.headers.deep_view() == headers_for(config)
        &&& self.body@ == bytes
    }
}

fn push_header(headers: &mut Vec<Header>, name: &str, value: String)
    ensures
        final(headers).deep_view() == old(headers).deep_view().push((name@, value@)),
{
    headers.push(Header { name: name.to_owned(), value });
    assert(headers.deep_view() == old(headers).deep_view().push((name@, value@)));
}

/// The request to format the bytes.
pub fn send_req(url: &str, config: &BlackConfig, bytes: Vec<u8>) -> (request: Request)
    ensures
        request.asks(url@, config@, bytes@),
{
    let mut headers: Vec<Header> = Vec::new();
    assert(headers.deep_view() == Seq::<(Seq<char>, Seq<char>)>::empty());
    push_header(&mut headers, "X-Protocol-Version", "1".to_owned());
    if let Some(true) = config.pyi {
        push_header(&mut headers, "X-Python-Variant", "pyi".to_owned());
    }
    if let Some(versions) = &config.target_version {
        push_header(&mut headers, "X-Python-Variant", join_with_commas(versions));
    }
    if let Some(true) = config.skip_string_normalization {
        push_header(&mut headers, "X-Skip-String-Normalization", "true".to_owned());
    }
    if let Some(length) = config.line_length {
        push_header(&mut headers, "X-Line-Length", to_decimal(length));
    }
    if let Some(true) = config.fast {
        push_header(&mut headers, "X-Fast-Or-Safe", "fast".to_owned());
    }
    assert(headers.deep_view() == headers_for(config@));
    Request { url: url.to_owned(), headers, body: bytes }
}

/// Where formatted text goes.
#[derive(Debug, PartialEq, Eq)]
pub enum Destination {
    File(String),
    Stdout,
}

impl Destination {
    /// Whether this is where a source of that name goes: back to its file, or to the standard
    /// output where it came from the standard input.
    pub open spec fn is_for(self, fname: Option<Seq<char>>) -> bool {
        match fname {
            Some(fname) => self matches Destination::File(path) && path@ == fname,
            None => self is Stdout,
        }
    }
}

/// What is reported of a source in the end.
#[derive(Debug)]
pub struct Report<E> {
    pub name: String,
    pub result: Result<ActionTaken, Failure<E>>,
}

/// The name under which a source is reported.
pub open spec fn display_name(fname: Option<Seq<char>>) -> Seq<char> {
    match fname {
        Some(fname) => fname,
        None => "<stdin>"@,
    }
}

/// What to do next about a source.
#[derive(Debug)]
pub enum Step<E> {
    /// Send the request, then go on with the status of the answer.
    Send(Request),
    /// Write the body of the answer, then go on with how that went.
    Write(Destination),
    /// Report, and be done.
    Done(Report<E>),
}

impl<E> Step<E> {
    /// Whether the source is done with, and this is reported of it.
    pub open spec fn reports(
        self,
        fname: Option<Seq<char>>,
        result: Result<ActionTaken, Failure<E>>,
    ) -> bool {
        &&& self matches Step::Done(report)
        &&& report.name@ == display_name(fname)
        &&& report.result == result
    }
}

fn report<E>(fname: &Option<String>, result: Result<ActionTaken, Failure<E>>) -> (step: Step<E>)
    ensures
        step.reports(fname.deep_view(), result),
{
    let name = match fname {
        Some(fname) => fname.clone(),
        None => "<stdin>".to_owned(),
    };
    Step::Done(Report { name, result })
}

/// What follows reading a source.
pub open spec fn after_reading<E>(
    contents: Result<Vec<u8>, Failure<E>>,
    url: Seq<char>,
    config: BlackConfigView,
    fname: Option<Seq<char>>,
    step: Step<E>,
) -> bool {
    match contents {
        Ok(bytes) => step matches Step::Send(request) && request.asks(url, config, bytes@),
        Err(failure) => step.reports(fname, Err(failure)),
    }
}

/// What follows the answer of the server, of which the status decides.
pub open spec fn after_answer<E>(
    answer: Result<u16, Failure<E>>,
    fname: Option<Seq<char>>,
    step: Step<E>,
) -> bool {
    match answer {
        Ok(status) => if status == 200 {
            step matches Step::Write(destination) && destination.is_for(fname)
        } else if status == 204 {
            step.reports(fname, Ok(ActionTaken::Noop))
        } else {
            step.reports(
                fname,
                Err(Failure { kind: ErrorKind::UnexpectedStatus(status), cause: None }),
            )
        },
        Err(failure) => step.reports(fname, Err(failure)),
    }
}

/// What follows writing the formatted text.
pub open spec fn after_writing<E>(
    written: Result<(), Failure<E>>,
    fname: Option<Seq<char>>,
    step: Step<E>,
) -> bool {
    match written {
        Ok(()) => step.reports(fname, Ok(ActionTaken::Reformatted)),
        Err(failure) => step.reports(fname, Err(failure)),
    }
}

/// Goes on once a source has been read. `fname` is the file it came from, if it is one.
pub fn format_bytes<E>(
    contents: Result<Vec<u8>, Failure<E>>,
    url: &str,
    config: &BlackConfig,
    fname: &Option<String>,
) -> (step: Step<E>)
    ensures
        after_reading(contents, url@, config@, fname.deep_view(), step),
{
    match contents {
        Ok(bytes) => Step::Send(send_req(url, config, bytes)),
        Err(failure) => report(fname, Err(failure)),
    }
}

/// Goes on once the server has answered.
pub fn handle_response<E>(answer: Result<u16, Failure<E>>, fname: &Option<String>) -> (step: Step<
    E,
>)
    ensures
        after_answer(answer, fname.deep_view(), step),
        answer == Ok::<u16, Failure<E>>(200u16) ==> match *fname {
            Some(fname) => step matches Step::Write(Destination::File(path)) && path@ == fname@,
            None => step matches Step::Write(Destination::Stdout),
        },
{
    match answer {
        Ok(status) => if status == 200 {
            match fname {
                Some(fname) => Step::Write(Destination::File(fname.clone())),
                None => Step::Write(Destination::Stdout),
            }
        } else if status == 204 {
            report(fname, Ok(ActionTaken::Noop))
        } else {
            report(fname, Err(Failure::plain(ErrorKind::UnexpectedStatus(status))))
        },
        Err(failure) => report(fname, Err(failure)),
    }
}

/// Goes on once the formatted text has been written.
pub fn handle_reformat<E>(written: Result<(), Failure<E>>, fname: &Option<String>) -> (step: Step<
    E,
>)
    ensures
        after_writing(written, fname.deep_view(), step),
{
    match written {
        Ok(()) => report(fname, Ok(ActionTaken::Reformatted)),
        Err(failure) => report(fname, Err(failure)),
    }
}

/// The line that reports what became of a source.
pub fn report_line(name: &str, outcome: &str) -> (line: String)
    ensures
        line@ == name@ + ": "@ + outcome@,
{
    let mut line = name.to_owned();
    line.append(": ");
    line.append(outcome);
    line
}

/// The server is told to skip its sanity checks exactly if they are configured to be skipped.
pub proof fn skipped_checks_are_asked_for(config: BlackConfigView)
    ensures
        headers_for(config).contains(("X-Fast-Or-Safe"@, "fast"@)) <==> config.fast == Some(true),
{
    reveal_strlit("X-Protocol-Version");
    reveal_strlit("X-Python-Variant");
    reveal_strlit("X-Skip-String-Normalization");
    reveal_strlit("X-Line-Length");
    reveal_strlit("X-Fast-Or-Safe");
    let headers = headers_for(config);
    if config.fast == Some(true) {
        assert(headers.last() == ("X-Fast-Or-Safe"@, "fast"@));
    } else {
        assert forall|i: int| 0 <= i < headers.len() implies (#[trigger] headers[i]).0
            != "X-Fast-Or-Safe"@ by {
            assert(headers[i].0.len() != "X-Fast-Or-Safe"@.len());
        }
    }
}

/// What a source ends with, were each of its steps taken.
pub open spec fn outcome<E>(
    contents: Result<Vec<u8>, Failure<E>>,
    answer: Result<u16, Failure<E>>,
    written: Result<(), Failure<E>>,
) -> Result<ActionTaken, Failure<E>> {
    match contents {
        Err(failure) => Err(failure),
        Ok(_) => match answer {
            Err(failure) => Err(failure),
            Ok(status) => if status == 200 {
                match written {
                    Err(failure) => Err(failure),
                    Ok(_) => Ok(ActionTaken::Reformatted),
                }
            } else if status == 204 {
                Ok(ActionTaken::Noop)
            } else {
                Err(Failure { kind: ErrorKind::UnexpectedStatus(status), cause: None })
            },
        },
    }
}

/// However the steps of a source go, it ends in a report under its own name, and the first
/// failure is what is reported.
pub proof fn every_source_is_reported<E>(
    contents: Result<Vec<u8>, Failure<E>>,
    answer: Result<u16, Failure<E>>,
    written: Result<(), Failure<E>>,
    url: Seq<char>,
    config: BlackConfigView,
    fname: Option<Seq<char>>,
    read: Step<E>,
    answered: Step<E>,
    wrote: Step<E>,
)
    requires
        after_reading(contents, url, config, fname, read),
        after_answer(answer, fname, answered),
        after_writing(written, fname, wrote),
    ensures
        match read {
            Step::Send(_) => match answered {
                Step::Write(_) => wrote.reports(fname, outcome(contents, answer, written)),
                _ => answered.reports(fname, outcome(contents, answer, written)),
            },
            _ => read.reports(fname, outcome(contents, answer, written)),
        },
{
}

/// Nothing is written unless the server has sent formatted text, and then to where the source
/// came from. A source that is well formatted, or could not be formatted, is left alone.
pub proof fn only_formatted_text_is_written<E>(
    answer: Result<u16, Failure<E>>,
    fname: Option<Seq<char>>,
    step: Step<E>,
)
    requires
        after_answer(answer, fname, step),
    ensures
        step is Write <==> answer == Ok::<u16, Failure<E>>(200u16),
        step matches Step::Write(destination) ==> destination.is_for(fname),
{
}

/// The view of a header is its name and its value.
pub proof fn the_view_shows_the_whole_header(header: Header)
    ensures
        header.deep_view().0 == header.name@,
        header.deep_view().1 == header.value@,
{
}

proof fn lemma_header_names()
    ensures
        "X-Protocol-Version"@.len() == 18,
        "X-Python-Variant"@.len() == 16,
        "X-Skip-String-Normalization"@.len() == 27,
        "X-Line-Length"@.len() == 13,
        "X-Fast-Or-Safe"@.len() == 14,
{
    reveal_strlit("X-Protocol-Version");
    reveal_strlit("X-Python-Variant");
    reveal_strlit("X-Skip-String-Normalization");
    reveal_strlit("X-Line-Length");
    reveal_strlit("X-Fast-Or-Safe");
}

proof fn lemma_headers(config: BlackConfigView, header: (Seq<char>, Seq<char>))
    ensures
        headers_for(config).contains(header) <==> {
            ||| header == ("X-Protocol-Version"@, "1"@)
            ||| config.pyi == Some(true) && header == ("X-Python-Variant"@, "pyi"@)
            ||| config.target_version is Some && header == (
                "X-Python-Variant"@,
                comma_separated(config.target_version->0),
            )
            ||| config.skip_string_normalization == Some(true) && header == (
                "X-Skip-String-Normalization"@,
                "true"@,
            )
            ||| config.line_length is Some && header == (
                "X-Line-Length"@,
                decimal(config.line_length->0 as nat),
            )
            ||| config.fast == Some(true) && header == ("X-Fast-Or-Safe"@, "fast"@)
        },
{
    let protocol = header_if(true, "X-Protocol-Version"@, "1"@);
    let pyi = header_if(config.pyi == Some(true), "X-Python-Variant"@, "pyi"@);
    let versions = header_if(
        config.target_version is Some,
        "X-Python-Variant"@,
        comma_separated(config.target_version->0),
    );
    let skip = header_if(
        config.skip_string_normalization == Some(true),
        "X-Skip-String-Normalization"@,
        "true"@,
    );
    let length = header_if(
        config.line_length is Some,
        "X-Line-Length"@,
        decimal(config.line_length->0 as nat),
    );
    let fast = header_if(config.fast == Some(true), "X-Fast-Or-Safe"@, "fast"@);
    lemma_contains_either(protocol, pyi, header);
    lemma_contains_either(protocol + pyi, versions, header);
    lemma_contains_either(protocol + pyi + versions, skip, header);
    lemma_contains_either(protocol + pyi + versions + skip, length, header);
    lemma_contains_either(protocol + pyi + versions + skip + length, fast, header);
    lemma_header_if(true, "X-Protocol-Version"@, "1"@, header);
    lemma_header_if(config.pyi == Some(true), "X-Python-Variant"@, "pyi"@, header);
    lemma_header_if(
        config.target_version is Some,
        "X-Python-Variant"@,
        comma_separated(config.target_version->0),
        header,
    );
    lemma_header_if(
        config.skip_string_normalization == Some(true),
        "X-Skip-String-Normalization"@,
        "true"@,
        header,
    );
    lemma_header_if(
        config.line_length is Some,
        "X-Line-Length"@,
        decimal(config.line_length->0 as nat),
        header,
    );
    lemma_header_if(config.fast == Some(true), "X-Fast-Or-Safe"@, "fast"@, header);
}

proof fn lemma_header_if(
    applies: bool,
    name: Seq<char>,
    value: Seq<char>,
    header: (Seq<char>, Seq<char>),
)
    ensures
        header_if(applies, name, value).contains(header) <==> applies && header == (name, value),
{
    if applies {
        assert(header_if(applies, name, value)[0] == (name, value));
    }
}

proof fn lemma_contains_either<A>(a: Seq<A>, b: Seq<A>, x: A)
    ensures
        (a + b).contains(x) <==> a.contains(x) || b.contains(x),
{
    if a.contains(x) {
        let i = choose|i: int| 0 <= i < a.len() && a[i] == x;
        assert((a + b)[i] == x);
    }
    if b.contains(x) {
        let i = choose|i: int| 0 <= i < b.len() && b[i] == x;
        assert((a + b)[a.len() + i] == x);
    }
    if (a + b).contains(x) {
        let i = choose|i: int| 0 <= i < (a + b).len() && (a + b)[i] == x;
        if i < a.len() {
            assert(a[i] == x);
        } else {
            assert(b[i - a.len()] == x);
        }
    }
}

/// The request names the version of the protocol, which is 1.
pub proof fn the_protocol_is_named(config: BlackConfigView, value: Seq<char>)
    ensures
        headers_for(config).contains(("X-Protocol-Version"@, value)) <==> value == "1"@,
{
    lemma_header_names();
    lemma_headers(config, ("X-Protocol-Version"@, value));
}

/// The request carries a line length exactly if one is configured, and then that one.
pub proof fn the_line_length_is_sent(config: BlackConfigView, n: u64, value: Seq<char>)
    ensures
        headers_for(config).contains(("X-Line-Length"@, decimal(n as nat))) <==> config.line_length
            == Some(n),
        headers_for(config).contains(("X-Line-Length"@, value)) ==> {
            &&& config.line_length is Some
            &&& number_in(value) == config.line_length
        },
{
    lemma_header_names();
    lemma_headers(config, ("X-Line-Length"@, decimal(n as nat)));
    lemma_headers(config, ("X-Line-Length"@, value));
    number_is_read_back(n);
    if config.line_length is Some {
        number_is_read_back(config.line_length->0);
    }
}

/// The server is told to leave strings alone exactly if that is configured.
pub proof fn skipped_normalization_is_asked_for(config: BlackConfigView, value: Seq<char>)
    ensures
        headers_for(config).contains(("X-Skip-String-Normalization"@, value)) <==> {
            &&& config.skip_string_normalization == Some(true)
            &&& value == "true"@
        },
{
    lemma_header_names();
    lemma_headers(config, ("X-Skip-String-Normalization"@, value));
}

/// The variants of Python that are sent are `pyi`, if it is configured, and the target
/// versions, if there are any, in a list.
pub proof fn the_variants_are_sent(config: BlackConfigView, value: Seq<char>)
    ensures
        headers_for(config).contains(("X-Python-Variant"@, value)) <==> {
            ||| config.pyi == Some(true) && value == "pyi"@
            ||| config.target_version is Some && value == comma_separated(
                config.target_version->0,
            )
        },
{
    lemma_header_names();
    lemma_headers(config, ("X-Python-Variant"@, value));
}

/// The server is told how to go about sanity checks only to skip them.
pub proof fn nothing_else_is_said_of_checks(config: BlackConfigView, value: Seq<char>)
    ensures
        headers_for(config).contains(("X-Fast-Or-Safe"@, value)) <==> {
            &&& config.fast == Some(true)
            &&& value == "fast"@
        },
{
    lemma_header_names();
    lemma_headers(config, ("X-Fast-Or-Safe"@, value));
}

/// The request carries no other headers, and each of these once: the version of the protocol
/// first, and `pyi` ahead of the target versions.
pub proof fn each_setting_is_sent_once(config: BlackConfigView, header: (Seq<char>, Seq<char>))
    ensures
        headers_for(config).contains(header) ==> {
            ||| header.0 == "X-Protocol-Version"@
            ||| header.0 == "X-Python-Variant"@
            ||| header.0 == "X-Skip-String-Normalization"@
            ||| header.0 == "X-Line-Length"@
            ||| header.0 == "X-Fast-Or-Safe"@
        },
        headers_for(config).len() == 1 + (if config.pyi == Some(true) {
            1int
        } else {
            0
        }) + (if config.target_version is Some {
            1int
        } else {
            0
        }) + (if config.skip_string_normalization == Some(true) {
            1int
        } else {
            0
        }) + (if config.line_length is Some {
            1int
        } else {
            0
        }) + (if config.fast == Some(true) {
            1int
        } else {
            0
        }),
        headers_for(config)[0] == ("X-Protocol-Version"@, "1"@),
        config.pyi == Some(true) ==> headers_for(config)[1] == ("X-Python-Variant"@, "pyi"@),
        config.pyi == Some(true) && config.target_version is Some ==> headers_for(config)[2] == (
            "X-Python-Variant"@,
            comma_separated(config.target_version->0),
        ),
{
    lemma_headers(config, header);
}

/// A setting is sent whatever the others are: where two configurations agree on it, the
/// headers for it are the same.
pub proof fn settings_are_sent_independently(
    one: BlackConfigView,
    other: BlackConfigView,
    value: Seq<char>,
)
    ensures
        one.line_length == other.line_length ==> (headers_for(one).contains(
            ("X-Line-Length"@, value),
        ) <==> headers_for(other).contains(("X-Line-Length"@, value))),
        one.skip_string_normalization == other.skip_string_normalization ==> (headers_for(
            one,
        ).contains(("X-Skip-String-Normalization"@, value)) <==> headers_for(other).contains(
            ("X-Skip-String-Normalization"@, value),
        )),
        one.pyi == other.pyi && one.target_version == other.target_version ==> (headers_for(
            one,
        ).contains(("X-Python-Variant"@, value)) <==> headers_for(other).contains(
            ("X-Python-Variant"@, value),
        )),
        one.fast == other.fast ==> (headers_for(one).contains(("X-Fast-Or-Safe"@, value))
            <==> headers_for(other).contains(("X-Fast-Or-Safe"@, value))),
{
    lemma_header_names();
    lemma_headers(one, ("X-Line-Length"@, value));
    lemma_headers(other, ("X-Line-Length"@, value));
    skipped_normalization_is_asked_for(one, value);
    skipped_normalization_is_asked_for(other, value);
    the_variants_are_sent(one, value);
    the_variants_are_sent(other, value);
    nothing_else_is_said_of_checks(one, value);
    nothing_else_is_said_of_checks(other, value);
}

/// A request for some bytes goes to the given address, with those bytes, as they are, for its
/// body, and with the headers of the configuration.
pub proof fn requests_hold_what_was_read(
    request: Request,
    url: Seq<char>,
    config: BlackConfigView,
    bytes: Seq<u8>,
)
    requires
        request.asks(url, config, bytes),
    ensures
        request.url@ == url,
        request.body@ == bytes,
        request.headers.len() == headers_for(config).len(),
        forall|i: int|
            0 <= i < request.headers.len() ==> (#[trigger] request.headers[i]).name@
                == headers_for(config)[i].0 && request.headers[i].value@ == headers_for(
                config,
            )[i].1,
{
    assert forall|i: int| 0 <= i < request.headers.len() implies (
    #[trigger] request.headers[i]).name@ == headers_for(config)[i].0
        && request.headers[i].value@ == headers_for(config)[i].1 by {
        assert(request.headers.deep_view()[i] == request.headers[i].deep_view());
    }
}

/// What could be read is sent, with the bytes that were read, to the given address. What could
/// not be read is done with, and reported under the name of its file, or as `<stdin>`.
pub proof fn reading_leads_to_sending<E>(
    contents: Result<Vec<u8>, Failure<E>>,
    url: Seq<char>,
    config: BlackConfigView,
    fname: Option<Seq<char>>,
    step: Step<E>,
)
    requires
        after_reading(contents, url, config, fname, step),
    ensures
        contents matches Ok(bytes) ==> {
            &&& step matches Step::Send(request)
            &&& request.url@ == url
            &&& request.body@ == bytes@
            &&& request.headers.deep_view() == headers_for(config)
        },
        contents matches Err(failure) ==> {
            &&& step matches Step::Done(report)
            &&& report.result == Err::<ActionTaken, _>(failure)
            &&& fname matches Some(name) ==> report.name@ == name
            &&& fname is None ==> report.name@ == "<stdin>"@
        },
{
}

/// On status 200 formatted text goes back to the file that it came from, of exactly that name,
/// and to the standard output exactly if it came from the standard input.
pub proof fn formatted_text_goes_where_it_came_from<E>(fname: Option<Seq<char>>, step: Step<E>)
    requires
        after_answer(Ok(200), fname, step),
    ensures
        fname matches Some(name) ==> {
            &&& step matches Step::Write(Destination::File(path))
            &&& path@ == name
        },
        fname is None <==> (step matches Step::Write(Destination::Stdout)),
{
}

/// On status 204 the source is done with and reported as well formatted. Any other status but
/// 200, and an answer that never came, is reported as the failure that it is. Each report
/// bears the name of the file, or `<stdin>`.
pub proof fn other_answers_are_reported<E>(
    answer: Result<u16, Failure<E>>,
    fname: Option<Seq<char>>,
    step: Step<E>,
)
    requires
        after_answer(answer, fname, step),
        answer != Ok::<u16, Failure<E>>(200u16),
    ensures
        step matches Step::Done(report) && {
            &&& answer == Ok::<u16, Failure<E>>(204u16) ==> report.result == Ok::<_, Failure<E>>(
                ActionTaken::Noop,
            )
            &&& answer matches Ok(status) ==> status != 204 ==> {
                &&& report.result matches Err(failure)
                &&& failure.kind == ErrorKind::UnexpectedStatus(status)
                &&& failure.cause is None
            }
            &&& answer matches Err(failure) ==> report.result == Err::<ActionTaken, _>(failure)
            &&& fname matches Some(name) ==> report.name@ == name
            &&& fname is None ==> report.name@ == "<stdin>"@
        },
{
}

/// Once the text is written the source is reported as reformatted, and if it could not be
/// written, with that failure.
pub proof fn writing_is_reported<E>(
    written: Result<(), Failure<E>>,
    fname: Option<Seq<char>>,
    step: Step<E>,
)
    requires
        after_writing(written, fname, step),
    ensures
        step matches Step::Done(report) && {
            &&& written is Ok ==> report.result == Ok::<_, Failure<E>>(ActionTaken::Reformatted)
            &&& written matches Err(failure) ==> report.result == Err::<ActionTaken, _>(failure)
            &&& fname matches Some(name) ==> report.name@ == name
            &&& fname is None ==> report.name@ == "<stdin>"@
        },
{
}

/// A source is reported as reformatted only if it was read, answered with status 200, and
/// written, and as well formatted only if it was read and answered with status 204.
pub proof fn success_has_its_reasons<E>(
    contents: Result<Vec<u8>, Failure<E>>,
    answer: Result<u16, Failure<E>>,
    written: Result<(), Failure<E>>,
)
    ensures
        outcome(contents, answer, written) == Ok::<_, Failure<E>>(ActionTaken::Reformatted) <==> {
            &&& contents is Ok
            &&& answer == Ok::<u16, Failure<E>>(200u16)
            &&& written is Ok
        },
        outcome(contents, answer, written) == Ok::<_, Failure<E>>(ActionTaken::Noop) <==> {
            &&& contents is Ok
            &&& answer == Ok::<u16, Failure<E>>(204u16)
        },
{
}

} // verus!
