//! Errors of the service and their text.
use vstd::prelude::*;

verus! {

/// What can go wrong: at startup (tracing, configuration), or while resolving
/// a request's client address. Each variant carries the text it reports.
#[derive(Clone, Debug, PartialEq, Eq)]
pub enum AppError {
    /// The global tracing subscriber could not be installed; the text of the cause.
    TracingError(String),
    /// The configuration could not be read; the text of the cause.
    ConfigError(String),
    /// The trusted header is absent from the request; its name.
    MissingTrustedHeader(String),
    /// The trusted header does not hold exactly one IP address; its name.
    InvalidClientIp(String),
}

/// The text of each cause line.
pub open spec fn causes_view(causes: Seq<String>) -> Seq<Seq<char>> {
    causes.map_values(|c: String| c@)
}

/// The message, a blank line, then a `Caused by:` block per cause, in order.
pub open spec fn chain_text(message: Seq<char>, causes: Seq<Seq<char>>) -> Seq<char>
    decreases causes.len(),
{
    if causes.len() == 0 {
        message + "\n\n"@
    } else {
        chain_text(message, causes.drop_last()) + "Caused by:\n\t"@ + causes.last() + "\n"@
    }
}

impl AppError {
    /// The one-line message of the error.
    pub open spec fn spec_message(&self) -> Seq<char> {
        match self {
            AppError::TracingError(c) => "error when setup tracing: "@ + c@,
            AppError::ConfigError(c) => "error when read config: "@ + c@,
            AppError::MissingTrustedHeader(h) => "missing trusted header: "@ + h@,
            AppError::InvalidClientIp(h) => "invalid client ip in header: "@ + h@,
        }
    }

    /// The text of the underlying cause, for the errors that wrap one.
    pub open spec fn spec_causes(&self) -> Seq<Seq<char>> {
        match self {
            AppError::TracingError(c) => seq![c@],
            AppError::ConfigError(c) => seq![c@],
            _ => Seq::empty(),
        }
    }

    pub fn message(&self) -> (r: String)
        ensures
            r@ == self.spec_message(),
    {
        let (mut head, tail) = match self {
            AppError::TracingError(c) => (String::from_str("error when setup tracing: "), c),
            AppError::ConfigError(c) => (String::from_str("error when read config: "), c),
            AppError::MissingTrustedHeader(h) => (String::from_str("missing trusted header: "), h),
            AppError::InvalidClientIp(h) => (String::from_str("invalid client ip in header: "), h),
        };
        head.append(tail.as_str());
        head
    }

    /// Every error that reaches a response answers 500 Internal Server Error.
    pub fn status_code(&self) -> (r: u16)
        ensures
            r == 500,
    {
        500
    }

    /// The message followed by the chain of causes, as logged.
    pub fn report(&self) -> (r: String)
        ensures
            r@ == chain_text(self.spec_message(), self.spec_causes()),
    {
        let message = self.message();
        let mut causes: Vec<String> = Vec::new();
        match self {
            AppError::TracingError(c) => causes.push(c.clone()),
            AppError::ConfigError(c) => causes.push(c.clone()),
            _ => {},
        }
        assert(causes_view(causes@) =~= self.spec_causes());
        error_chain_fmt(message.as_str(), &causes)
    }
}

/// The message, a blank line, then `Caused by:` and a tab-indented line for
/// each cause, outermost first.
pub fn error_chain_fmt(message: &str, causes: &Vec<String>) -> (r: String)
    ensures
        r@ == chain_text(message@, causes_view(causes@)),
{
    let ghost cv = causes_view(causes@);
    let mut out = String::from_str(message);
    out.append("\n\n");
    let mut i: usize = 0;
    assert(cv.subrange(0, 0) =~= Seq::<Seq<char>>::empty());
    while i < causes.len()
        invariant
            cv == causes_view(causes@),
            i <= causes@.len(),
            out@ == chain_text(message@, cv.subrange(0, i as int)),
        decreases causes.len() - i,
    {
        out.append("Caused by:\n\t");
        out.append(causes[i].as_str());
        out.append("\n");
        proof {
            assert(cv.subrange(0, i + 1).drop_last() =~= cv.subrange(0, i as int));
        }
        i = i + 1;
    }
    assert(cv.subrange(0, causes@.len() as int) =~= cv);
    out
}

} // verus!
