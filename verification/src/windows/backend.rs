//! The audio service of the machine.
//!
//! The calls into the service are the caller's. What they come to is decided call by call,
//! in [`crate::windows::listing`] for what there is and in [`crate::windows::open`] for the
//! streams and for whether an endpoint is active.

use crate::routing::EndpointId;
use crate::windows::endpoint::{
    EndpointFlow, EndpointInfo, ProcessInfo, WindowsAudioError, WindowsFault,
};
use crate::windows::listing::{
    by_pid, endpoint_records, EndpointListing, ListStep, SessionListing, SessionStep,
};
use crate::windows::open::{
    activity_after, advance_activity, answers, checks_activity, com_usable, ActivityStep, OpenEvent,
    OpenStep, StreamKind, StreamOpening, RPC_E_CHANGED_MODE,
};
use crate::windows::process::{ordered_by_pid, process_models};
use crate::windows::stream::{WasapiCaptureSource, WasapiRenderSink};
use vstd::prelude::*;

verus! {

/// What a thread holds while it uses the audio service. There is one only where COM is:
/// everywhere else `new` says that the platform has no such service.
#[derive(Debug)]
pub struct WindowsAudioBackend {
    uninitialize_com: bool,
}

/// What is asked next of a capture and a render endpoint.
#[derive(Debug, PartialEq, Eq)]
pub enum PairStep {
    /// Whether the endpoint is active in the direction.
    Ask { endpoint_id: EndpointId, flow: EndpointFlow },
    /// Both are active, or one of them is not.
    Known { active: bool },
}

/// Whether an opening has come to its end, as a stream of the kind on the endpoint.
pub open spec fn runs(
    opening: StreamOpening,
    kind: StreamKind,
    endpoint_id: EndpointId,
    block_frames: usize,
) -> bool {
    &&& opening@.step == OpenStep::Opened
    &&& opening@.format is Some
    &&& opening@.kind == kind
    &&& opening@.endpoint == endpoint_id@
    &&& kind == StreamKind::Render ==> opening@.block_frames == block_frames
}

/// The capture stream that a finished opening gives.
pub open spec fn captures(
    source: WasapiCaptureSource,
    opening: StreamOpening,
    endpoint_id: EndpointId,
) -> bool {
    &&& source.endpoint_id == endpoint_id
    &&& opening@.format == Some(source.format)
    &&& source.buffer_frames == opening@.buffer_frames
}

impl WindowsAudioBackend {
    /// Whether COM is to be given up when the thread is done.
    pub closed spec fn gives_up_com(&self) -> bool {
        self.uninitialize_com
    }

    /// Connects to the audio service. `com` is what COM answered when the thread was
    /// initialised, and none where there is no COM. A thread that was initialised in
    /// another way can use the service all the same.
    pub fn new(com: Option<i32>) -> (result: Result<Self, WindowsAudioError>)
        ensures
            match (com, result) {
                (None, Err(e)) => e@ == WindowsFault::UnsupportedPlatform,
                (Some(hresult), Err(e)) => !com_usable(hresult) && e@ == (
                WindowsFault::ComInitialization { hresult }),
                (Some(hresult), Ok(backend)) => com_usable(hresult) && backend.gives_up_com() == (
                hresult == 0 || hresult == 1),
                (None, Ok(_)) => false,
            },
    {
        match com {
            None => Err(WindowsAudioError::UnsupportedPlatform),
            Some(hresult) => if hresult < 0 && hresult != RPC_E_CHANGED_MODE {
                Err(WindowsAudioError::ComInitialization { hresult })
            } else {
                Ok(WindowsAudioBackend { uninitialize_com: hresult == 0 || hresult == 1 })
            },
        }
    }

    /// Whether COM is to be given up when the thread is done.
    pub fn uninitialize_com(&self) -> (due: bool)
        ensures
            due == self.gives_up_com(),
    {
        self.uninitialize_com
    }

    /// The active endpoints, once their listing has ended or failed.
    pub fn enumerate_endpoints(
        &self,
        listing: Result<EndpointListing, WindowsAudioError>,
    ) -> (result: Result<Vec<EndpointInfo>, WindowsAudioError>)
        requires
            listing matches Ok(l) ==> l@.step == ListStep::Listed,
        ensures
            match (listing, result) {
                (Ok(l), Ok(endpoints)) => endpoint_records(endpoints@) == l@.endpoints,
                (Err(e), Err(f)) => f == e,
                _ => false,
            },
    {
        match listing {
            Ok(listing) => Ok(listing.into_endpoints()),
            Err(e) => Err(e),
        }
    }

    /// The processes that play audio, once their listing has ended or failed: each once,
    /// in the order of their numbers.
    pub fn enumerate_processes(
        &self,
        listing: Result<SessionListing, WindowsAudioError>,
    ) -> (result: Result<Vec<ProcessInfo>, WindowsAudioError>)
        requires
            listing matches Ok(l) ==> l@.step == SessionStep::Listed,
        ensures
            match (listing, result) {
                (Ok(l), Ok(processes)) => ordered_by_pid(process_models(processes@)) && by_pid(
                    process_models(processes@),
                ) == l@.processes,
                (Err(e), Err(f)) => f == e,
                _ => false,
            },
    {
        match listing {
            Ok(listing) => Ok(listing.into_processes()),
            Err(e) => Err(e),
        }
    }

    /// Whether an endpoint is active in the expected direction: takes the reply to the
    /// call that was due, the first of which is `OpenStep::CreateEnumerator`.
    pub fn is_endpoint_active(
        &self,
        endpoint_id: &EndpointId,
        expected_flow: EndpointFlow,
        step: OpenStep,
        event: OpenEvent,
    ) -> (result: Result<ActivityStep, WindowsAudioError>)
        requires
            checks_activity(step),
            answers(step, event@),
        ensures
            match result {
                Ok(next) => activity_after(step, event@, endpoint_id@, expected_flow) == Ok::<
                    ActivityStep,
                    WindowsFault,
                >(next),
                Err(e) => activity_after(step, event@, endpoint_id@, expected_flow) == Err::<
                    ActivityStep,
                    WindowsFault,
                >(e@),
            },
    {
        advance_activity(step, event, endpoint_id, expected_flow)
    }

    /// Whether a capture and a render endpoint are both active. The capture endpoint is
    /// asked first, and the render endpoint only where the first one is active.
    pub fn are_endpoints_active(
        &self,
        capture_id: &EndpointId,
        render_id: &EndpointId,
        capture: Option<Result<bool, WindowsAudioError>>,
        render: Option<Result<bool, WindowsAudioError>>,
    ) -> (result: Result<PairStep, WindowsAudioError>)
        ensures
            match capture {
                None => result matches Ok(PairStep::Ask { endpoint_id, flow }) && endpoint_id
                    == *capture_id && flow == EndpointFlow::Capture,
                Some(Err(e)) => result matches Err(f) && f == e,
                Some(Ok(false)) => result matches Ok(PairStep::Known { active }) && !active,
                Some(Ok(true)) => match render {
                    None => result matches Ok(PairStep::Ask { endpoint_id, flow }) && endpoint_id
                        == *render_id && flow == EndpointFlow::Render,
                    Some(Err(e)) => result matches Err(f) && f == e,
                    Some(Ok(active)) => result matches Ok(PairStep::Known { active: known })
                        && known == active,
                },
            },
    {
        match capture {
            None => Ok(
                PairStep::Ask { endpoint_id: capture_id.clone(), flow: EndpointFlow::Capture },
            ),
            Some(Err(e)) => Err(e),
            Some(Ok(false)) => Ok(PairStep::Known { active: false }),
            Some(Ok(true)) => match render {
                None => Ok(
                    PairStep::Ask { endpoint_id: render_id.clone(), flow: EndpointFlow::Render },
                ),
                Some(Err(e)) => Err(e),
                Some(Ok(active)) => Ok(PairStep::Known { active }),
            },
        }
    }

    /// The stream that plays on a render endpoint in blocks of so many frames, once its
    /// opening has ended or failed.
    pub fn open_render_sink(
        &self,
        endpoint_id: &EndpointId,
        block_frames: usize,
        opening: Result<StreamOpening, WindowsAudioError>,
    ) -> (result: Result<WasapiRenderSink, WindowsAudioError>)
        requires
            opening matches Ok(o) ==> runs(o, StreamKind::Render, *endpoint_id, block_frames),
        ensures
            match (opening, result) {
                (Ok(o), Ok(sink)) => sink.endpoint_id == *endpoint_id && o@.format == Some(
                    sink.format,
                ) && sink.buffer_frames == o@.buffer_frames && sink.block_frames == block_frames,
                (Err(e), Err(f)) => f == e,
                _ => false,
            },
    {
        match opening {
            Ok(opening) => Ok(
                WasapiRenderSink::opened(&opening, endpoint_id, block_frames).unwrap(),
            ),
            Err(e) => Err(e),
        }
    }

    /// The stream that records from a capture endpoint, once its opening has ended or
    /// failed.
    pub fn open_capture_source(
        &self,
        endpoint_id: &EndpointId,
        opening: Result<StreamOpening, WindowsAudioError>,
    ) -> (result: Result<WasapiCaptureSource, WindowsAudioError>)
        requires
            opening matches Ok(o) ==> runs(o, StreamKind::Capture, *endpoint_id, 0),
        ensures
            match (opening, result) {
                (Ok(o), Ok(source)) => captures(source, o, *endpoint_id),
                (Err(e), Err(f)) => f == e,
                _ => false,
            },
    {
        match opening {
            Ok(opening) => Ok(WasapiCaptureSource::opened(&opening, endpoint_id).unwrap()),
            Err(e) => Err(e),
        }
    }

    /// The stream that records what a render endpoint plays, once its opening has ended or
    /// failed.
    pub fn open_device_loopback_source(
        &self,
        endpoint_id: &EndpointId,
        opening: Result<StreamOpening, WindowsAudioError>,
    ) -> (result: Result<WasapiCaptureSource, WindowsAudioError>)
        requires
            opening matches Ok(o) ==> runs(o, StreamKind::DeviceLoopback, *endpoint_id, 0),
        ensures
            match (opening, result) {
                (Ok(o), Ok(source)) => captures(source, o, *endpoint_id),
                (Err(e), Err(f)) => f == e,
                _ => false,
            },
    {
        match opening {
            Ok(opening) => Ok(WasapiCaptureSource::opened(&opening, endpoint_id).unwrap()),
            Err(e) => Err(e),
        }
    }
}

} // verus!
