//! The job request that the spooler's invocation describes, and how it is
//! read from the argument vector and the device URI.

use vstd::prelude::*;
use crate::copies::{copies_of, parse_copies};
use crate::error::BackendError;
use crate::options::{parse_options, Options};
use crate::outside::{parse_url, parsed_url};
use crate::path::{file_name, file_name_of, lemma_file_name_is_a_component};
use crate::text::{option_view, views};

verus! {

/// Where the bytes of the job come from.
#[derive(Debug)]
pub enum JobSource {
    /// A file that the caller named. It is not owned by the request, and
    /// nothing has looked at it yet.
    JobFile(String),
    /// A temporary spool that holds what came in on standard input. It
    /// belongs to the request alone.
    TempFile(String),
}

impl JobSource {
    /// The path of the file that holds the job.
    pub open spec fn location(self) -> Seq<char> {
        match self {
            JobSource::JobFile(path) => path@,
            JobSource::TempFile(path) => path@,
        }
    }

    /// The path of the file that holds the job.
    pub fn path(&self) -> (path: &str)
        ensures
            path@ == self.location(),
    {
        match self {
            JobSource::JobFile(path) => path.as_str(),
            JobSource::TempFile(path) => path.as_str(),
        }
    }

    /// The job file that an argument vector names: its seventh entry, taken
    /// as it is and not looked at. A shorter vector names none, and the job
    /// then comes in on standard input.
    pub fn named_file(args: &Vec<String>) -> (source: Option<JobSource>)
        ensures
            source == if args@.len() >= 7 {
                Some(JobSource::JobFile(args@[6]))
            } else {
                None
            },
    {
        if args.len() >= 7 {
            Some(JobSource::JobFile(args[6].clone()))
        } else {
            None
        }
    }

    /// The source of a job that came in on standard input: the spool at the
    /// given path where spooling went well, and its error where it did not.
    pub fn spooled(spool: Result<String, std::io::Error>) -> (result: Result<
        JobSource,
        BackendError,
    >)
        ensures
            result == match spool {
                Ok(path) => Ok::<JobSource, BackendError>(JobSource::TempFile(path)),
                Err(error) => Err(BackendError::IOError(error)),
            },
    {
        match spool {
            Ok(path) => Ok(JobSource::TempFile(path)),
            Err(error) => Err(BackendError::from(error)),
        }
    }
}

/// What a job request says apart from its source, as plain values.
pub ghost struct JobView {
    pub printer_uri: Seq<char>,
    pub user_name: Seq<char>,
    pub title: Seq<char>,
    pub copies: u32,
    pub options: Map<Seq<char>, Seq<char>>,
}

/// A job request that lacks only its source.
#[derive(Debug)]
pub struct JobTicket {
    pub printer_uri: String,
    pub user_name: String,
    pub title: String,
    pub copies: u32,
    pub options: Options,
}

/// A validated job request.
#[derive(Debug)]
pub struct BackendData {
    /// The device URI in its normalised form.
    pub printer_uri: String,
    pub user_name: String,
    pub title: String,
    pub copies: u32,
    pub options: Options,
    pub job_source: JobSource,
}

/// What reading an invocation leads to: a complete request, or a ticket that
/// waits for standard input to be spooled.
#[derive(Debug)]
pub enum ParseStep {
    Ready(BackendData),
    NeedsSpool(JobTicket),
}

impl View for JobTicket {
    type V = JobView;

    open spec fn view(&self) -> JobView {
        JobView {
            printer_uri: self.printer_uri@,
            user_name: self.user_name@,
            title: self.title@,
            copies: self.copies,
            options: self.options@,
        }
    }
}

/// The view of an optional text.
pub open spec fn text_view(text: Option<&str>) -> Option<Seq<char>> {
    match text {
        Some(s) => Some(s@),
        None => None,
    }
}

/// The title of a job: the title given, if it is not empty; else the file
/// name of the job file, if one was named (empty where the path has no file
/// name); else `untitled`.
pub open spec fn title_from(given: Seq<char>, file_name: Option<Option<Seq<char>>>) -> Seq<char> {
    if given.len() > 0 {
        given
    } else {
        match file_name {
            Some(Some(name)) => name,
            Some(None) => Seq::empty(),
            None => "untitled"@,
        }
    }
}

/// The title of the job that an argument vector of six or seven entries
/// describes.
pub open spec fn title_of(args: Seq<Seq<char>>) -> Seq<char> {
    title_from(
        args[3],
        if args.len() >= 7 {
            Some(file_name_of(args[6]))
        } else {
            None
        },
    )
}

/// The device URI in its normalised form, where the variable is set and
/// holds a valid URI.
pub open spec fn resolve_uri(device_uri: Option<Seq<char>>) -> Option<Seq<char>> {
    match device_uri {
        Some(text) => parsed_url(text),
        None => None,
    }
}

/// Why an argument vector and a device URI, already parsed where there was
/// a valid one, yield no job request, if they yield none: first the number
/// of arguments is judged, then the device URI.
pub open spec fn assemble_failure(args: Seq<Seq<char>>, printer_uri: Option<Seq<char>>) -> Option<
    BackendError,
> {
    if args.len() < 2 {
        Some(BackendError::NoArgs)
    } else if args.len() != 6 && args.len() != 7 {
        Some(BackendError::BadArgs)
    } else if printer_uri is None {
        Some(BackendError::NoUri)
    } else {
        None
    }
}

/// Why an invocation yields no job request, if it yields none.
pub open spec fn parse_failure(args: Seq<Seq<char>>, device_uri: Option<Seq<char>>) -> Option<
    BackendError,
> {
    assemble_failure(args, resolve_uri(device_uri))
}

/// What the job request of a well-formed invocation says, given the device
/// URI in its normalised form.
pub open spec fn job_of(args: Seq<Seq<char>>, printer_uri: Seq<char>) -> JobView {
    JobView {
        printer_uri,
        user_name: args[2],
        title: title_of(args),
        copies: copies_of(args[4]),
        options: parse_options(args[5]),
    }
}

/// Picks the title of a job from the title given and from the file name of
/// the job file: `None` where no job file was named, `Some(None)` where the
/// path of the job file has no file name.
pub fn pick_title(given: &str, file_name: Option<Option<String>>) -> (title: String)
    ensures
        title@ == title_from(
            given@,
            match file_name {
                Some(name) => Some(option_view(name)),
                None => None,
            },
        ),
{
    if !given.is_empty() {
        given.to_owned()
    } else {
        match file_name {
            Some(Some(name)) => name,
            Some(None) => String::new(),
            None => "untitled".to_owned(),
        }
    }
}

/// Resolves the title of the job that an argument vector describes.
pub fn resolve_title(args: &Vec<String>) -> (title: String)
    requires
        args@.len() == 6 || args@.len() == 7,
    ensures
        title@ == title_of(views(args@)),
{
    let given = args[3].as_str();
    if !given.is_empty() {
        pick_title(given, None)
    } else if args.len() >= 7 {
        pick_title(given, Some(file_name(args[6].as_str())))
    } else {
        pick_title(given, None)
    }
}

impl JobTicket {
    /// The options hold each key once.
    pub open spec fn wf(&self) -> bool {
        self.options.wf()
    }

    /// Completes the request with its source.
    pub fn with_source(self, source: JobSource) -> (data: BackendData)
        ensures
            data.ticket() == self@,
            data.wf() == self.wf(),
            data.job_source == source,
    {
        BackendData {
            printer_uri: self.printer_uri,
            user_name: self.user_name,
            title: self.title,
            copies: self.copies,
            options: self.options,
            job_source: source,
        }
    }

    /// Completes the request once standard input has been spooled: with the
    /// path of the spool where that went well, and with the error where it
    /// did not.
    pub fn with_spool(self, spool: Result<String, std::io::Error>) -> (result: Result<
        BackendData,
        BackendError,
    >)
        ensures
            match spool {
                Ok(path) => result matches Ok(data) && data.ticket() == self@ && data.wf()
                    == self.wf() && data.job_source == JobSource::TempFile(path),
                Err(error) => result matches Err(e) && e == BackendError::IOError(error),
            },
    {
        match JobSource::spooled(spool) {
            Ok(source) => Ok(self.with_source(source)),
            Err(e) => Err(e),
        }
    }
}

impl BackendData {
    /// The options hold each key once.
    pub open spec fn wf(&self) -> bool {
        self.options.wf()
    }

    /// What the request says apart from its source.
    pub open spec fn ticket(&self) -> JobView {
        JobView {
            printer_uri: self.printer_uri@,
            user_name: self.user_name@,
            title: self.title@,
            copies: self.copies,
            options: self.options@,
        }
    }

    /// Builds the job request from the argument vector, program name first,
    /// and from the device URI as it came out of parsing: `None` where the
    /// variable is not set or does not hold a valid URI.
    ///
    /// Fewer than two arguments are a request to identify the backend; any
    /// other number than six or seven is refused; then the device URI must be
    /// there. The user name is taken as it is, the copy count falls back to
    /// one, and the options are read from the sixth entry. With a seventh
    /// entry the request is complete and refers to that path, which is not
    /// looked at; without one the ticket waits for the spool.
    pub fn assemble(args: &Vec<String>, printer_uri: Option<String>) -> (result: Result<
        ParseStep,
        BackendError,
    >)
        ensures
            match result {
                Err(e) => assemble_failure(views(args@), option_view(printer_uri)) == Some(e),
                Ok(ParseStep::Ready(data)) => {
                    &&& assemble_failure(views(args@), option_view(printer_uri)) is None
                    &&& args@.len() == 7
                    &&& data.ticket() == job_of(views(args@), printer_uri->0@)
                    &&& data.wf()
                    &&& data.job_source == JobSource::JobFile(args@[6])
                },
                Ok(ParseStep::NeedsSpool(ticket)) => {
                    &&& assemble_failure(views(args@), option_view(printer_uri)) is None
                    &&& args@.len() == 6
                    &&& ticket@ == job_of(views(args@), printer_uri->0@)
                    &&& ticket.wf()
                },
            },
    {
        if args.len() < 2 {
            return Err(BackendError::NoArgs);
        } else if args.len() != 6 && args.len() != 7 {
            return Err(BackendError::BadArgs);
        }
        let printer_uri = match printer_uri {
            Some(uri) => uri,
            None => {
                return Err(BackendError::NoUri);
            },
        };
        let user_name = args[2].clone();
        let title = resolve_title(args);
        let copies = parse_copies(args[4].as_str());
        let options = Options::parse(args[5].as_str());
        let ticket = JobTicket { printer_uri, user_name, title, copies, options };
        match JobSource::named_file(args) {
            Some(source) => Ok(ParseStep::Ready(ticket.with_source(source))),
            None => Ok(ParseStep::NeedsSpool(ticket)),
        }
    }

    /// Reads the spooler's invocation: the argument vector, program name
    /// first, and the value of the device URI variable, if it is set. The
    /// device URI is parsed only where the number of arguments is right;
    /// the rest is done by [`BackendData::assemble`].
    pub fn parse_args(args: &Vec<String>, device_uri: Option<&str>) -> (result: Result<
        ParseStep,
        BackendError,
    >)
        ensures
            match result {
                Err(e) => parse_failure(views(args@), text_view(device_uri)) == Some(e),
                Ok(ParseStep::Ready(data)) => {
                    &&& parse_failure(views(args@), text_view(device_uri)) is None
                    &&& args@.len() == 7
                    &&& data.ticket() == job_of(
                        views(args@),
                        resolve_uri(text_view(device_uri))->0,
                    )
                    &&& data.wf()
                    &&& data.job_source == JobSource::JobFile(args@[6])
                },
                Ok(ParseStep::NeedsSpool(ticket)) => {
                    &&& parse_failure(views(args@), text_view(device_uri)) is None
                    &&& args@.len() == 6
                    &&& ticket@ == job_of(views(args@), resolve_uri(text_view(device_uri))->0)
                    &&& ticket.wf()
                },
            },
    {
        let printer_uri = if args.len() == 6 || args.len() == 7 {
            match device_uri {
                Some(text) => parse_url(text),
                None => None,
            }
        } else {
            None
        };
        BackendData::assemble(args, printer_uri)
    }
}

/// An argument vector with fewer than two entries yields no request: it asks
/// the backend to identify itself, whatever the device URI.
pub proof fn lemma_short_vector_is_probe(args: Seq<Seq<char>>, device_uri: Option<Seq<char>>)
    requires
        args.len() < 2,
    ensures
        parse_failure(args, device_uri) == Some(BackendError::NoArgs),
{
}

/// An argument vector of two or more entries, but neither six nor seven, is
/// refused as malformed, whatever its entries and the device URI hold.
pub proof fn lemma_wrong_arity_is_refused(args: Seq<Seq<char>>, device_uri: Option<Seq<char>>)
    requires
        args.len() >= 2,
        args.len() != 6,
        args.len() != 7,
    ensures
        parse_failure(args, device_uri) == Some(BackendError::BadArgs),
{
}

/// With six or seven arguments, a device URI that is missing or not a valid
/// URI yields the error for a missing URI, whatever the arguments hold.
pub proof fn lemma_missing_uri_is_refused(args: Seq<Seq<char>>, device_uri: Option<Seq<char>>)
    requires
        args.len() == 6 || args.len() == 7,
    ensures
        device_uri is None || parsed_url(device_uri->0) is None ==> parse_failure(args, device_uri)
            == Some(BackendError::NoUri),
{
}

/// The title is the one given where that is not empty, and `untitled` where
/// it is empty and no job file was named. It is empty only where it had to
/// come from the path of a job file and that path has no file name.
pub proof fn lemma_title_cases(args: Seq<Seq<char>>)
    requires
        args.len() == 6 || args.len() == 7,
    ensures
        args[3].len() > 0 ==> title_of(args) == args[3],
        args[3].len() == 0 && args.len() == 6 ==> title_of(args) == "untitled"@,
        title_of(args).len() == 0 <==> args[3].len() == 0 && args.len() == 7 && file_name_of(
            args[6],
        ) is None,
{
    reveal_strlit("untitled");
    if args.len() == 7 {
        lemma_file_name_is_a_component(args[6]);
    }
}

/// An invocation yields a request exactly when it has six or seven arguments
/// and a valid device URI.
pub proof fn lemma_request_iff_well_formed(args: Seq<Seq<char>>, device_uri: Option<Seq<char>>)
    ensures
        parse_failure(args, device_uri) is None <==> (args.len() == 6 || args.len() == 7)
            && device_uri is Some && parsed_url(device_uri->0) is Some,
{
}

} // verus!
