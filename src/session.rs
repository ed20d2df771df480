//! One run of the tool as a sequence of steps: each step takes what the
//! outside world reported and says what to do next.

use crate::listing::{list_lines, listing};
use crate::text::{
    fields, is_space, join_fields, joined, lemma_fields_of_joined, split_words, views, words,
    words_acc,
};
use vstd::prelude::*;

verus! {

/// The options of one invocation.
#[derive(Clone, Debug)]
pub struct Args {
    /// Whitespace-separated identifiers of the templates to fetch; `None`
    /// asks for `rust`.
    pub lang: Option<String>,
    /// Directory that receives `.gitignore`; `None` is the current directory.
    pub path: Option<String>,
    /// List the identifiers that the service offers instead of writing a file.
    pub avail: bool,
}

/// Which request to the template service failed.
#[derive(Clone, Copy, Debug, PartialEq, Eq, Structural)]
pub enum Request {
    /// The list of offered identifiers.
    List,
    /// The template content for the requested identifiers.
    Content,
}

/// Why a run failed.
#[derive(Clone, Copy, Debug, PartialEq, Eq, Structural)]
pub enum GignError {
    /// The output directory does not exist.
    PathNotFound,
    /// A request to the template service failed.
    RemoteUnavailable(Request),
    /// `.gitignore` could not be created or written.
    WriteFailed,
}

/// The message shown to the user for `e`.
pub open spec fn message_of(e: GignError) -> Seq<char> {
    match e {
        GignError::PathNotFound => "File path does not exist"@,
        GignError::RemoteUnavailable(Request::List) => "Couldn't get supported langs. Try again later."@,
        GignError::RemoteUnavailable(Request::Content) => "Couldn't create gitignore. Try again later."@,
        GignError::WriteFailed => "Couldn't create gitignore"@,
    }
}

impl GignError {
    /// The message shown to the user.
    pub fn message(&self) -> (r: &'static str)
        ensures
            r@ == message_of(*self),
    {
        match self {
            GignError::PathNotFound => "File path does not exist",
            GignError::RemoteUnavailable(Request::List) => "Couldn't get supported langs. Try again later.",
            GignError::RemoteUnavailable(Request::Content) => "Couldn't create gitignore. Try again later.",
            GignError::WriteFailed => "Couldn't create gitignore",
        }
    }
}

/// Where the template service answers.
pub open spec fn base_url() -> Seq<char> {
    "https://www.toptal.com/developers/gitignore/api/"@
}

/// The request for the list of offered identifiers.
pub open spec fn list_url() -> Seq<char> {
    "https://www.toptal.com/developers/gitignore/api/list"@
}

/// The request for the combined template of `ids`.
pub open spec fn content_url(ids: Seq<Seq<char>>) -> Seq<char> {
    base_url() + joined(ids)
}

/// The identifiers requested by the language option `lang`.
pub open spec fn requested(lang: Option<String>) -> Seq<Seq<char>> {
    match lang {
        Some(l) => words(l@),
        None => seq!["rust"@],
    }
}

/// The output directory chosen by the path option `path`.
pub open spec fn dir_of(path: Option<String>) -> Seq<char> {
    match path {
        Some(p) => p@,
        None => "./"@,
    }
}

/// The request for the combined template of `langs`: the base address
/// followed by the identifiers joined with commas, in order.
pub fn get_gitignore_url(langs: &Vec<String>) -> (r: String)
    ensures
        r@ == content_url(views(langs@)),
{
    let mut url = String::from_str("https://www.toptal.com/developers/gitignore/api/");
    let tail = join_fields(langs);
    url.append(tail.as_str());
    url
}

/// The identifiers requested by the language option: its whitespace-separated
/// words, or `rust` alone when the option is absent.
pub fn requested_langs(lang: &Option<String>) -> (r: Vec<String>)
    ensures
        views(r@) == requested(*lang),
{
    match lang {
        Some(l) => split_words(l.as_str()),
        None => {
            let r = split_words("rust");
            proof {
                reveal_strlit("rust");
                let s = "rust"@;
                lemma_words_acc_no_space(s, 4);
                assert(s.take(4) == s);
            }
            r
        }
    }
}

/// What a session waits for.
#[derive(Clone, Copy, Debug, PartialEq, Eq, Structural)]
pub enum Phase {
    /// The body of the list request.
    AwaitList,
    /// Whether the output directory exists.
    AwaitDir,
    /// The body of the content request.
    AwaitContent,
    /// Whether `.gitignore` was written.
    AwaitWrite,
    /// Nothing: the run is over.
    Finished,
}

/// What the outside world reports back to a session.
#[derive(Debug)]
pub enum Event {
    /// The text body of the last request, or `None` when the request or the
    /// decoding of its body failed.
    Body(Option<String>),
    /// Whether the output directory exists.
    DirExists(bool),
    /// Whether `.gitignore` was created and written.
    Written(bool),
}

/// What a session asks the outside world to do next.
#[derive(Debug)]
pub enum Action {
    /// Fetch the list of offered identifiers from `url`.
    FetchList { url: String },
    /// Find out whether directory `dir` exists.
    CheckDir { dir: String },
    /// Fetch the combined template from `url`.
    FetchContent { url: String },
    /// Create or truncate `<dir>/.gitignore` and write `content` to it.
    WriteFile { dir: String, content: String },
    /// Print `lines`, one per line, and end the run with `result`.
    Finish { lines: Vec<String>, result: Result<(), GignError> },
}

/// The state of one run.
#[derive(Clone, Debug)]
pub struct Session {
    /// What the session waits for.
    pub phase: Phase,
    /// The output directory.
    pub dir: String,
    /// The requested identifiers.
    pub langs: Vec<String>,
}

/// `a` ends the run, printing `lines`, with `result`.
pub open spec fn finishes(a: Action, lines: Seq<Seq<char>>, result: Result<(), GignError>) -> bool {
    a matches Action::Finish { lines: l, result: r } && views(l@) == lines && r == result
}

/// `s` and `a` are how a run with options `args` begins: in list mode by
/// fetching the list, otherwise by checking the output directory, before
/// any request.
pub open spec fn starts(args: Args, s: Session, a: Action) -> bool {
    if args.avail {
        &&& s.phase == Phase::AwaitList
        &&& a matches Action::FetchList { url } && url@ == list_url()
    } else {
        &&& s.phase == Phase::AwaitDir
        &&& s.dir@ == dir_of(args.path)
        &&& views(s.langs@) == requested(args.lang)
        &&& a matches Action::CheckDir { dir } && dir@ == s.dir@
    }
}

/// Whether a session in state `s` waits for an event of the kind of `e`.
pub open spec fn awaits(s: Session, e: Event) -> bool {
    match s.phase {
        Phase::AwaitList => e is Body,
        Phase::AwaitDir => e is DirExists,
        Phase::AwaitContent => e is Body,
        Phase::AwaitWrite => e is Written,
        Phase::Finished => false,
    }
}

/// On event `e`, a session in state `s` goes to state `t` and asks for `a`.
pub open spec fn steps(s: Session, e: Event, t: Session, a: Action) -> bool {
    &&& t.dir == s.dir
    &&& t.langs == s.langs
    &&& match e {
        Event::Body(Some(body)) => if s.phase == Phase::AwaitList {
            &&& t.phase == Phase::Finished
            &&& finishes(a, list_lines(body@), Ok(()))
        } else {
            &&& t.phase == Phase::AwaitWrite
            &&& a matches Action::WriteFile { dir, content } && dir@ == s.dir@ && content@ == body@
        },
        Event::Body(None) => {
            let which = if s.phase == Phase::AwaitList {
                Request::List
            } else {
                Request::Content
            };
            &&& t.phase == Phase::Finished
            &&& finishes(a, seq![], Err(GignError::RemoteUnavailable(which)))
        },
        Event::DirExists(true) => {
            &&& t.phase == Phase::AwaitContent
            &&& a matches Action::FetchContent { url } && url@ == content_url(views(s.langs@))
        },
        Event::DirExists(false) => {
            &&& t.phase == Phase::Finished
            &&& finishes(a, seq![], Err(GignError::PathNotFound))
        },
        Event::Written(true) => {
            &&& t.phase == Phase::Finished
            &&& finishes(a, seq![], Ok(()))
        },
        Event::Written(false) => {
            &&& t.phase == Phase::Finished
            &&& finishes(a, seq![], Err(GignError::WriteFailed))
        },
    }
}

/// The output directory chosen by the path option: the option itself, or
/// `./` when it is absent.
pub fn output_dir(path: &Option<String>) -> (r: String)
    ensures
        r@ == dir_of(*path),
{
    match path {
        Some(p) => p.clone(),
        None => String::from_str("./"),
    }
}

impl Session {
    /// Begins a run with options `args`.
    pub fn start(args: &Args) -> (r: (Session, Action))
        ensures
            starts(*args, r.0, r.1),
    {
        if args.avail {
            let s = Session { phase: Phase::AwaitList, dir: String::new(), langs: Vec::new() };
            let url = String::from_str("https://www.toptal.com/developers/gitignore/api/list");
            (s, Action::FetchList { url })
        } else {
            let dir = output_dir(&args.path);
            let langs = requested_langs(&args.lang);
            let check = dir.clone();
            (Session { phase: Phase::AwaitDir, dir, langs }, Action::CheckDir { dir: check })
        }
    }

    /// Whether the session waits for an event of the kind of `e`.
    pub fn awaits(&self, e: &Event) -> (r: bool)
        ensures
            r == awaits(*self, *e),
    {
        match self.phase {
            Phase::AwaitList => matches!(e, Event::Body(_)),
            Phase::AwaitDir => matches!(e, Event::DirExists(_)),
            Phase::AwaitContent => matches!(e, Event::Body(_)),
            Phase::AwaitWrite => matches!(e, Event::Written(_)),
            Phase::Finished => false,
        }
    }

    /// Takes event `e` and says what to do next.
    pub fn step(&mut self, e: Event) -> (a: Action)
        requires
            awaits(*old(self), e),
        ensures
            steps(*old(self), e, *final(self), a),
    {
        assert(views(Seq::<String>::empty()) == Seq::<Seq<char>>::empty());
        match e {
            Event::Body(Some(body)) => {
                if self.phase == Phase::AwaitList {
                    self.phase = Phase::Finished;
                    Action::Finish { lines: listing(body.as_str()), result: Ok(()) }
                } else {
                    self.phase = Phase::AwaitWrite;
                    Action::WriteFile { dir: self.dir.clone(), content: body }
                }
            },
            Event::Body(None) => {
                let which = if self.phase == Phase::AwaitList {
                    Request::List
                } else {
                    Request::Content
                };
                self.phase = Phase::Finished;
                Action::Finish { lines: Vec::new(), result: Err(GignError::RemoteUnavailable(which)) }
            },
            Event::DirExists(true) => {
                self.phase = Phase::AwaitContent;
                Action::FetchContent { url: get_gitignore_url(&self.langs) }
            },
            Event::DirExists(false) => {
                self.phase = Phase::Finished;
                Action::Finish { lines: Vec::new(), result: Err(GignError::PathNotFound) }
            },
            Event::Written(true) => {
                self.phase = Phase::Finished;
                Action::Finish { lines: Vec::new(), result: Ok(()) }
            },
            Event::Written(false) => {
                self.phase = Phase::Finished;
                Action::Finish { lines: Vec::new(), result: Err(GignError::WriteFailed) }
            },
        }
    }
}

/// The content request names the requested identifiers in their order,
/// repetitions kept: after the base address, splitting the rest at every
/// comma gives them back, provided none holds a comma.
pub proof fn lemma_content_url_names_langs(ids: Seq<Seq<char>>)
    requires
        ids.len() > 0,
        forall|i: int| 0 <= i < ids.len() ==> !(#[trigger] ids[i]).contains(','),
    ensures
        content_url(ids).take(base_url().len() as int) == base_url(),
        fields(content_url(ids).skip(base_url().len() as int)) == ids,
{
    let u = content_url(ids);
    assert(u.take(base_url().len() as int) == base_url());
    assert(u.skip(base_url().len() as int) == joined(ids));
    lemma_fields_of_joined(ids);
}

/// A run in list mode fetches the list from the list address, then prints one
/// numbered line per listed identifier and ends with success; it never asks
/// to write a file.
pub proof fn lemma_list_mode(args: Args, s1: Session, a1: Action, body: String, s2: Session, a2: Action)
    requires
        args.avail,
        starts(args, s1, a1),
        steps(s1, Event::Body(Some(body)), s2, a2),
    ensures
        a1 matches Action::FetchList { url } && url@ == list_url(),
        finishes(a2, list_lines(body@), Ok(())),
        forall|e: Event| !awaits(s2, e),
{
}

/// A run whose output directory does not exist asks only for the directory
/// check, then ends with `PathNotFound`: no request is made.
pub proof fn lemma_missing_dir(args: Args, s1: Session, a1: Action, s2: Session, a2: Action)
    requires
        !args.avail,
        starts(args, s1, a1),
        steps(s1, Event::DirExists(false), s2, a2),
    ensures
        a1 matches Action::CheckDir { dir } && dir@ == dir_of(args.path),
        finishes(a2, seq![], Err(GignError::PathNotFound)),
        forall|e: Event| !awaits(s2, e),
{
}

/// When the content request fails, the run ends with `RemoteUnavailable`
/// and never asks to write a file.
pub proof fn lemma_failed_fetch(s: Session, t: Session, a: Action)
    requires
        s.phase == Phase::AwaitContent,
        steps(s, Event::Body(None), t, a),
    ensures
        !(a is WriteFile),
        finishes(a, seq![], Err(GignError::RemoteUnavailable(Request::Content))),
        forall|e: Event| !awaits(t, e),
{
}

/// A run that finds its directory and gets the template fetches it from the
/// base address followed by the requested identifiers joined with commas,
/// asks to write exactly the fetched body, whatever the file held before, to
/// `.gitignore` in the chosen directory, and ends with success once written.
pub proof fn lemma_run_writes_fetched_body(
    args: Args,
    s1: Session,
    a1: Action,
    s2: Session,
    a2: Action,
    body: String,
    s3: Session,
    a3: Action,
    s4: Session,
    a4: Action,
)
    requires
        !args.avail,
        starts(args, s1, a1),
        steps(s1, Event::DirExists(true), s2, a2),
        steps(s2, Event::Body(Some(body)), s3, a3),
        steps(s3, Event::Written(true), s4, a4),
    ensures
        a1 matches Action::CheckDir { dir } && dir@ == dir_of(args.path),
        a2 matches Action::FetchContent { url } && url@ == content_url(requested(args.lang)),
        a3 matches Action::WriteFile { dir, content } && dir@ == dir_of(args.path) && content@
            == body@,
        finishes(a4, seq![], Ok(())),
        forall|e: Event| !awaits(s4, e),
{
}

proof fn lemma_words_acc_no_space(s: Seq<char>, k: int)
    requires
        0 <= k <= s.len(),
        forall|j: int| 0 <= j < s.len() ==> !is_space(#[trigger] s[j]),
    ensures
        words_acc(s.take(k)) == (Seq::<Seq<char>>::empty(), s.take(k)),
    decreases k,
{
    if k > 0 {
        assert(s.take(k).drop_last() == s.take(k - 1));
        lemma_words_acc_no_space(s, k - 1);
        assert(s.take(k - 1).push(s[k - 1]) == s.take(k));
    }
}

} // verus!
