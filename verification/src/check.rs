//! Lookups as sequences of steps: each step names the request to send
//! next, and takes the response to it.

use vstd::prelude::*;
use crate::error::{Error, ErrorView};
use crate::gate::{ensure_is_image, gate, header_text, is_header_text};
use crate::source::{Output, OutputView, Phase, Reading, ReadingView, Source, result_view};
use crate::text::contains;
use crate::transport::{
    Method, Request, RequestView, Response, ResponseView, head_request_for, plain_request,
    reply_view,
};

verus! {

/// A lookup under way: the image it is about and the response it waits for.
///
/// A lookup is made by [`Check::start`] alone, so that none gets past the
/// headers of the image's address without them.
#[derive(Debug, Clone, PartialEq, Eq)]
pub struct Check {
    url: String,
    phase: Phase,
}

/// Mathematical content of a [`Check`].
pub struct CheckView {
    pub url: Seq<char>,
    pub phase: Phase,
}

impl View for Check {
    type V = CheckView;

    closed spec fn view(&self) -> CheckView {
        CheckView { url: self.url@, phase: self.phase }
    }
}

/// What a lookup asks of the caller next.
#[derive(Debug, PartialEq, Eq)]
pub enum Step {
    /// Send the request and hand its response to the lookup.
    Send(Check, Request),
    /// Nothing: the lookup is over.
    Done(Result<Output, Error>),
}

/// Mathematical content of a [`Step`].
pub enum StepView {
    Send(CheckView, RequestView),
    Done(Result<OutputView, ErrorView>),
}

impl View for Step {
    type V = StepView;

    open spec fn view(&self) -> StepView {
        match self {
            Step::Send(check, request) => StepView::Send(check@, request@),
            Step::Done(r) => StepView::Done(result_view(*r)),
        }
    }
}

/// The first step of the lookup for the image at `url`: the request for
/// the headers of that address.
pub open spec fn first_step(url: Seq<char>) -> StepView {
    StepView::Send(CheckView { url, phase: Phase::Gate }, head_request_for(url))
}

/// The step that follows a response, or the loss of one.
///
/// No response ends the lookup. The first response is that of the image's
/// address: where its content type does not allow to go on, the lookup ends
/// and no request goes to the backend. Every later response is the
/// backend's to read.
pub open spec fn next_step<S: Source>(
    source: S,
    check: CheckView,
    reply: Option<ResponseView>,
) -> StepView {
    match reply {
        None => StepView::Done(Err(ErrorView::FailedRequest)),
        Some(response) => match check.phase {
            Phase::Gate => match gate(response.content_type) {
                Err(e) => StepView::Done(Err(e)),
                Ok(()) => match source.opening(check.url) {
                    Ok((request, phase)) => StepView::Send(
                        CheckView { url: check.url, phase },
                        request,
                    ),
                    Err(e) => StepView::Done(Err(e)),
                },
            },
            phase => match source.reading(check.url, phase, response) {
                ReadingView::Next(request, phase) => StepView::Send(
                    CheckView { url: check.url, phase },
                    request,
                ),
                ReadingView::Done(r) => StepView::Done(r),
            },
        },
    }
}

impl Check {
    /// The address of the image that the lookup is about.
    pub fn url(&self) -> (url: &str)
        ensures
            url@ == self@.url,
    {
        self.url.as_str()
    }

    /// The response that the lookup waits for.
    pub fn phase(&self) -> (phase: Phase)
        ensures
            phase == self@.phase,
    {
        self.phase
    }

    /// Begins the lookup for the image at `url`: see [`first_step`].
    pub fn start(url: &str) -> (step: Step)
        ensures
            step@ == first_step(url@),
    {
        Step::Send(
            Check { url: String::from_str(url), phase: Phase::Gate },
            plain_request(Method::Head, String::from_str(url)),
        )
    }

    /// Takes the response to the request that was last asked for, or
    /// `None` where none came: see [`next_step`].
    pub fn advance<S: Source>(self, source: &S, reply: Option<Response>) -> (step: Step)
        ensures
            step@ == next_step(*source, self@, reply_view(reply)),
    {
        let response = match reply {
            Some(response) => response,
            None => {
                return Step::Done(Err(Error::FailedRequest));
            },
        };
        match self.phase {
            Phase::Gate => {
                assert(response.content_type.deep_view() == response@.content_type) by {
                    match response.content_type {
                        Some(bytes) => {
                            assert(bytes.deep_view() =~= bytes@);
                        },
                        None => {},
                    }
                }
                match ensure_is_image(&response.content_type) {
                    Err(e) => Step::Done(Err(e)),
                    Ok(()) => match source.open(self.url.as_str()) {
                        Ok((request, phase)) => Step::Send(Check { url: self.url, phase }, request),
                        Err(e) => Step::Done(Err(e)),
                    },
                }
            },
            phase => match source.read(self.url.as_str(), phase, &response) {
                Reading::Next(request, phase) => Step::Send(
                    Check { url: self.url, phase },
                    request,
                ),
                Reading::Done(r) => Step::Done(r),
            },
        }
    }
}

/// Whatever the backend, a lookup whose image address answers without a
/// content type, or with one that reads as text and does not hold `image`,
/// ends at once with `LinkIsNotImage`: no request goes to the backend.
pub proof fn lemma_not_image_stops_lookup<S: Source>(
    source: S,
    url: Seq<char>,
    response: ResponseView,
)
    requires
        response.content_type matches Some(bytes) ==> is_header_text(bytes) && !contains(
            header_text(bytes),
            "image"@,
        ),
    ensures
        next_step(source, CheckView { url, phase: Phase::Gate }, Some(response))
            == StepView::Done(Err(ErrorView::LinkIsNotImage)),
{
}

/// Whatever the backend, a lookup whose image address answers with a
/// content type that does not allow to go on ends at once, with the failure
/// that the content type stands for: no request goes to the backend.
pub proof fn lemma_gate_stops_lookup<S: Source>(source: S, url: Seq<char>, response: ResponseView)
    requires
        gate(response.content_type) is Err,
    ensures
        next_step(source, CheckView { url, phase: Phase::Gate }, Some(response))
            == StepView::Done(Err(gate(response.content_type)->Err_0)),
{
}

/// Several lookups under way, one after the other: the addresses, how many
/// of them were begun, the lookup that is under way, and what the lookups
/// before it found.
#[derive(Debug, Clone, PartialEq, Eq)]
pub struct CheckMany {
    urls: Vec<String>,
    begun: usize,
    current: Check,
    outputs: Vec<Output>,
}

/// Mathematical content of a [`CheckMany`].
pub struct CheckManyView {
    pub urls: Seq<Seq<char>>,
    pub begun: usize,
    pub current: CheckView,
    pub outputs: Seq<OutputView>,
}

/// The content of each output of `outputs`.
pub open spec fn output_views(outputs: Seq<Output>) -> Seq<OutputView> {
    Seq::new(outputs.len(), |i: int| outputs[i]@)
}

impl View for CheckMany {
    type V = CheckManyView;

    closed spec fn view(&self) -> CheckManyView {
        CheckManyView {
            urls: self.urls.deep_view(),
            begun: self.begun,
            current: self.current@,
            outputs: output_views(self.outputs@),
        }
    }
}

/// What several lookups ask of the caller next.
#[derive(Debug, PartialEq, Eq)]
pub enum BatchStep {
    /// Send the request and hand its response to the lookups.
    Send(CheckMany, Request),
    /// Nothing: the lookups are over.
    Done(Result<Vec<Output>, Error>),
}

/// Mathematical content of a [`BatchStep`].
pub enum BatchStepView {
    Send(CheckManyView, RequestView),
    Done(Result<Seq<OutputView>, ErrorView>),
}

impl View for BatchStep {
    type V = BatchStepView;

    open spec fn view(&self) -> BatchStepView {
        match self {
            BatchStep::Send(batch, request) => BatchStepView::Send(batch@, request@),
            BatchStep::Done(Ok(outputs)) => BatchStepView::Done(Ok(output_views(outputs@))),
            BatchStep::Done(Err(e)) => BatchStepView::Done(Err(e@)),
        }
    }
}

/// The first step of the lookups for the images at `urls`: the first step
/// of the first lookup, or the end where there is no address.
pub open spec fn first_batch_step(urls: Seq<Seq<char>>) -> BatchStepView {
    if urls.len() == 0 {
        BatchStepView::Done(Ok(Seq::empty()))
    } else {
        BatchStepView::Send(
            CheckManyView {
                urls,
                begun: 1,
                current: CheckView { url: urls[0], phase: Phase::Gate },
                outputs: Seq::empty(),
            },
            head_request_for(urls[0]),
        )
    }
}

/// The step that follows a response, or the loss of one.
///
/// The lookup under way takes the response. Where it goes on, so do the
/// lookups. Where it fails, the lookups end with its failure alone: what
/// the lookups before it found is dropped, and no later lookup is begun.
/// Where it succeeds, its output joins the others and the next lookup is
/// begun; after the last one the outputs are handed out, in the order of
/// the addresses.
pub open spec fn next_batch_step<S: Source>(
    source: S,
    batch: CheckManyView,
    reply: Option<ResponseView>,
) -> BatchStepView {
    match next_step(source, batch.current, reply) {
        StepView::Send(check, request) => BatchStepView::Send(
            CheckManyView { current: check, ..batch },
            request,
        ),
        StepView::Done(Err(e)) => BatchStepView::Done(Err(e)),
        StepView::Done(Ok(output)) => {
            let outputs = batch.outputs.push(output);
            if batch.begun < batch.urls.len() {
                let url = batch.urls[batch.begun as int];
                BatchStepView::Send(
                    CheckManyView {
                        urls: batch.urls,
                        begun: (batch.begun + 1) as usize,
                        current: CheckView { url, phase: Phase::Gate },
                        outputs,
                    },
                    head_request_for(url),
                )
            } else {
                BatchStepView::Done(Ok(outputs))
            }
        },
    }
}

impl CheckMany {
    /// The addresses of the images, in the order of the lookups.
    pub fn urls(&self) -> (urls: &Vec<String>)
        ensures
            urls.deep_view() == self@.urls,
    {
        &self.urls
    }

    /// How many of the lookups were begun.
    pub fn begun(&self) -> (begun: usize)
        ensures
            begun == self@.begun,
    {
        self.begun
    }

    /// The lookup that is under way.
    pub fn current(&self) -> (current: &Check)
        ensures
            current@ == self@.current,
    {
        &self.current
    }

    /// What the lookups before the one under way found.
    pub fn outputs(&self) -> (outputs: &Vec<Output>)
        ensures
            output_views(outputs@) == self@.outputs,
    {
        &self.outputs
    }

    /// Begins the lookups for the images at `urls`: see
    /// [`first_batch_step`].
    pub fn start(urls: Vec<String>) -> (step: BatchStep)
        ensures
            step@ == first_batch_step(urls.deep_view()),
    {
        if urls.len() == 0 {
            let outputs: Vec<Output> = Vec::new();
            assert(output_views(outputs@) =~= Seq::<OutputView>::empty());
            return BatchStep::Done(Ok(outputs));
        }
        let url = urls[0].clone();
        let outputs: Vec<Output> = Vec::new();
        assert(output_views(outputs@) =~= Seq::<OutputView>::empty());
        let request = plain_request(Method::Head, url.clone());
        BatchStep::Send(
            CheckMany { urls, begun: 1, current: Check { url, phase: Phase::Gate }, outputs },
            request,
        )
    }

    /// Takes the response to the request that was last asked for, or
    /// `None` where none came: see [`next_batch_step`].
    pub fn advance<S: Source>(self, source: &S, reply: Option<Response>) -> (step: BatchStep)
        ensures
            step@ == next_batch_step(*source, self@, reply_view(reply)),
    {
        let CheckMany { urls, begun, current, outputs } = self;
        match current.advance(source, reply) {
            Step::Send(check, request) => BatchStep::Send(
                CheckMany { urls, begun, current: check, outputs },
                request,
            ),
            Step::Done(Err(e)) => BatchStep::Done(Err(e)),
            Step::Done(Ok(output)) => {
                let mut outputs = outputs;
                let ghost before = output_views(outputs@);
                outputs.push(output);
                assert(output_views(outputs@) =~= before.push(output@));
                if begun < urls.len() {
                    let url = urls[begun].clone();
                    let request = plain_request(Method::Head, url.clone());
                    BatchStep::Send(
                        CheckMany {
                            urls,
                            begun: begun + 1,
                            current: Check { url, phase: Phase::Gate },
                            outputs,
                        },
                        request,
                    )
                } else {
                    BatchStep::Done(Ok(outputs))
                }
            },
        }
    }
}

/// Where the lookup under way fails, the lookups end with that failure and
/// hand out nothing else, whatever the lookups before it found.
pub proof fn lemma_failure_ends_batch<S: Source>(
    source: S,
    batch: CheckManyView,
    reply: Option<ResponseView>,
)
    requires
        next_step(source, batch.current, reply) matches StepView::Done(Err(_)),
    ensures
        next_batch_step(source, batch, reply) == BatchStepView::Done(
            Err(next_step(source, batch.current, reply)->Done_0->Err_0),
        ),
{
}

} // verus!
