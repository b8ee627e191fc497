//! Showing an error together with what caused it.

use vstd::prelude::*;
use vstd::string::*;

verus! {

/// An error as text: its own message, and the messages of its sources from
/// the nearest cause to the root.
#[derive(Debug)]
pub struct ErrorChain {
    pub message: String,
    pub sources: Vec<String>,
}

pub open spec fn texts_view(texts: Seq<String>) -> Seq<Seq<char>> {
    Seq::new(texts.len(), |i: int| texts[i]@)
}

/// The lines that name the causes: for each source a line break and
/// `  caused by: ` before its message.
pub open spec fn cause_lines(sources: Seq<Seq<char>>) -> Seq<char>
    decreases sources.len(),
{
    if sources.len() == 0 {
        Seq::empty()
    } else {
        cause_lines(sources.drop_last()) + "\n  caused by: "@ + sources.last()
    }
}

/// An error and its causes, one per line.
pub open spec fn spec_format_error_chain(message: Seq<char>, sources: Seq<Seq<char>>) -> Seq<char> {
    message + cause_lines(sources)
}

impl ErrorChain {
    pub open spec fn text(self) -> Seq<char> {
        spec_format_error_chain(self.message@, texts_view(self.sources@))
    }
}

/// Writes an error and its causes, one per line: the error's message, then
/// for each source `  caused by: ` and its message.
pub fn format_error_chain(error: &ErrorChain) -> (r: String)
    ensures
        r@ == error.text(),
{
    let mut out = error.message.clone();
    let mut i: usize = 0;
    assert(texts_view(error.sources@).take(0) =~= Seq::<Seq<char>>::empty());
    while i < error.sources.len()
        invariant
            i <= error.sources.len(),
            out@ == error.message@ + cause_lines(texts_view(error.sources@).take(i as int)),
        decreases error.sources.len() - i,
    {
        out.append("\n  caused by: ");
        out.append(error.sources[i].as_str());
        proof {
            let all = texts_view(error.sources@);
            assert(all.take(i + 1).drop_last() =~= all.take(i as int));
            assert(all.take(i + 1).last() == error.sources@[i as int]@);
            assert(out@ =~= error.message@ + cause_lines(all.take(i + 1)));
        }
        i += 1;
    }
    assert(texts_view(error.sources@).take(i as int) =~= texts_view(error.sources@));
    out
}

/// What is logged of an error.
#[derive(Debug)]
pub struct ErrorRecord {
    /// What was under way.
    pub context: String,
    /// The error and its causes, one per line.
    pub error: String,
    pub request_id: Option<u64>,
}

/// The record of an error that occurred during `context`.
pub fn log_error(context: &str, error: &ErrorChain) -> (r: ErrorRecord)
    ensures
        r.context@ == context@,
        r.error@ == error.text(),
        r.request_id is None,
{
    ErrorRecord { context: context.to_owned(), error: format_error_chain(error), request_id: None }
}

/// The record of an error that occurred during `context` while request
/// `request_id` was served.
pub fn log_error_with_context(context: &str, error: &ErrorChain, request_id: u64) -> (r:
    ErrorRecord)
    ensures
        r.context@ == context@,
        r.error@ == error.text(),
        r.request_id == Some(request_id),
{
    ErrorRecord {
        context: context.to_owned(),
        error: format_error_chain(error),
        request_id: Some(request_id),
    }
}

/// Turns the error of a result into its text, causes included.
pub fn result_to_string<T>(result: Result<T, ErrorChain>) -> (r: Result<T, String>)
    ensures
        match (result, r) {
            (Ok(a), Ok(b)) => a == b,
            (Err(e), Err(m)) => m@ == e.text(),
            _ => false,
        },
{
    match result {
        Ok(value) => Ok(value),
        Err(error) => Err(format_error_chain(&error)),
    }
}

/// An error as the debug console shows it.
#[derive(Debug)]
pub struct ErrorInfo {
    pub message: String,
    /// The error's message, then those of its sources.
    pub chain: Vec<String>,
    pub context: Option<String>,
    pub request_id: Option<u64>,
}

impl ErrorInfo {
    /// The info of an error: its message, and the chain that begins with
    /// that message and goes on with its sources; no context, no request.
    pub fn from_error(error: &ErrorChain) -> (r: Self)
        ensures
            r.message@ == error.message@,
            texts_view(r.chain@) == seq![error.message@] + texts_view(error.sources@),
            r.context is None,
            r.request_id is None,
    {
        let mut chain: Vec<String> = Vec::new();
        chain.push(error.message.clone());
        let mut i: usize = 0;
        assert(texts_view(chain@) =~= seq![error.message@] + texts_view(error.sources@).take(0));
        while i < error.sources.len()
            invariant
                i <= error.sources.len(),
                texts_view(chain@) == seq![error.message@] + texts_view(error.sources@).take(
                    i as int,
                ),
            decreases error.sources.len() - i,
        {
            let ghost before = chain@;
            chain.push(error.sources[i].clone());
            proof {
                let all = texts_view(error.sources@);
                assert(texts_view(before).len() == (seq![error.message@] + all.take(
                    i as int,
                )).len());
                assert forall|k: int| 0 <= k < chain@.len() implies texts_view(chain@)[k] == (
                seq![error.message@] + all.take(i + 1))[k] by {
                    if k < before.len() {
                        assert(texts_view(before)[k] == (seq![error.message@] + all.take(
                            i as int,
                        ))[k]);
                    }
                }
                assert(texts_view(chain@) =~= seq![error.message@] + all.take(i + 1));
            }
            i += 1;
        }
        assert(texts_view(error.sources@).take(i as int) =~= texts_view(error.sources@));
        ErrorInfo { message: error.message.clone(), chain, context: None, request_id: None }
    }

    pub fn with_context(self, context: String) -> (r: Self)
        ensures
            r.context == Some(context),
            r.message == self.message,
            r.chain == self.chain,
            r.request_id == self.request_id,
    {
        let mut info = self;
        info.context = Some(context);
        info
    }

    pub fn with_request_id(self, request_id: u64) -> (r: Self)
        ensures
            r.request_id == Some(request_id),
            r.message == self.message,
            r.chain == self.chain,
            r.context == self.context,
    {
        let mut info = self;
        info.request_id = Some(request_id);
        info
    }
}

} // verus!
