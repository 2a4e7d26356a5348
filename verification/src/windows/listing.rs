//! How endpoints and the processes that play on them are listed: which call comes next, and
//! what each reply leads to.

use crate::routing::{AudioFormat, EndpointId};
use crate::windows::endpoint::{
    invalid_format, EndpointFlow, EndpointFormat, EndpointInfo, ProcessInfo, WindowsAudioError,
    WindowsFault,
};
use crate::windows::open::{format_bytes, read_format, read_mix_format};
use crate::windows::process::{
    described_process, describe_process, ordered_by_pid, process_models, ProcessList,
    ProcessLookup, ProcessRecord,
};
use vstd::prelude::*;
use vstd::string::StrSliceExecFns;

verus! {

/// The call that is due.
#[derive(Clone, Copy, Debug, PartialEq, Eq, Structural)]
pub enum ListStep {
    CreateEnumerator,
    /// Collect the active endpoints of a direction.
    EnumEndpoints { flow: EndpointFlow },
    GetCount,
    GetItem { index: u32 },
    GetId,
    OpenStore,
    GetName,
    ClearName,
    ActivateClient,
    GetMixFormat,
    /// Nothing: all endpoints are listed.
    Listed,
}

/// How a call went.
#[derive(Debug, PartialEq, Eq)]
pub enum ListEvent {
    Done,
    Failed { hresult: i32 },
    Count { count: u32 },
    /// The identifier of the endpoint, where there is one.
    Id { id: Option<String> },
    /// Its name, which may be empty.
    Name { name: String },
    /// The bytes of its mix format, where there are any.
    MixFormat { raw: Option<Vec<u8>> },
}

/// What a `ListEvent` says.
#[verifier::ext_equal]
pub enum ListEventModel {
    Done,
    Failed { hresult: i32 },
    Count { count: u32 },
    Id { id: Option<Seq<char>> },
    Name { name: Seq<char> },
    MixFormat { raw: Option<Seq<u8>> },
}

impl View for ListEvent {
    type V = ListEventModel;

    open spec fn view(&self) -> ListEventModel {
        match *self {
            ListEvent::Done => ListEventModel::Done,
            ListEvent::Failed { hresult } => ListEventModel::Failed { hresult },
            ListEvent::Count { count } => ListEventModel::Count { count },
            ListEvent::Id { id } => ListEventModel::Id { id: crate::routing::optional_text(id) },
            ListEvent::Name { name } => ListEventModel::Name { name: name@ },
            ListEvent::MixFormat { raw } => ListEventModel::MixFormat { raw: format_bytes(raw) },
        }
    }
}

/// What is listed of an endpoint.
#[verifier::ext_equal]
pub struct EndpointRecord {
    pub id: Seq<char>,
    pub name: Seq<char>,
    pub flow: EndpointFlow,
    pub format: Option<AudioFormat>,
    pub bits_per_sample: Option<u16>,
    pub channel_mask: Option<u32>,
    pub is_float: Option<bool>,
    pub is_pcm: Option<bool>,
}

/// What is listed of an endpoint.
pub open spec fn endpoint_record(info: EndpointInfo) -> EndpointRecord {
    EndpointRecord {
        id: info.id@,
        name: info.name@,
        flow: info.flow,
        format: info.format,
        bits_per_sample: info.bits_per_sample,
        channel_mask: info.channel_mask,
        is_float: info.is_float,
        is_pcm: info.is_pcm,
    }
}

/// What is listed of endpoints.
pub open spec fn endpoint_records(endpoints: Seq<EndpointInfo>) -> Seq<EndpointRecord> {
    endpoints.map_values(|info: EndpointInfo| endpoint_record(info))
}

/// An endpoint with its format, or without one where it could not be read.
pub open spec fn formatted(
    id: Seq<char>,
    name: Seq<char>,
    flow: EndpointFlow,
    format: Option<EndpointFormat>,
) -> EndpointRecord {
    match format {
        Some(format) => EndpointRecord {
            id,
            name,
            flow,
            format: Some(
                AudioFormat { sample_rate: format.sample_rate, channels: format.channels },
            ),
            bits_per_sample: Some(format.bits_per_sample),
            channel_mask: Some(format.channel_mask),
            is_float: Some(format.is_float),
            is_pcm: Some(format.is_pcm),
        },
        None => EndpointRecord {
            id,
            name,
            flow,
            format: None,
            bits_per_sample: None,
            channel_mask: None,
            is_float: None,
            is_pcm: None,
        },
    }
}

/// The name of a call in error messages. A call that only reads the format has none: the
/// listing goes on where it fails.
pub open spec fn list_operation(step: ListStep) -> Seq<char> {
    match step {
        ListStep::CreateEnumerator => "CoCreateInstance(MMDeviceEnumerator)"@,
        ListStep::EnumEndpoints { .. } => "IMMDeviceEnumerator::EnumAudioEndpoints"@,
        ListStep::GetCount => "IMMDeviceCollection::GetCount"@,
        ListStep::GetItem { .. } => "IMMDeviceCollection::Item"@,
        ListStep::GetId => "IMMDevice::GetId"@,
        ListStep::OpenStore => "IMMDevice::OpenPropertyStore"@,
        ListStep::GetName => "IPropertyStore::GetValue(PKEY_Device_FriendlyName)"@,
        ListStep::ClearName => "PropVariantClear(PKEY_Device_FriendlyName)"@,
        _ => ""@,
    }
}

/// Whether the endpoint that a call is about is known.
pub open spec fn names_endpoint(step: ListStep) -> bool {
    match step {
        ListStep::OpenStore => true,
        ListStep::GetName => true,
        ListStep::ClearName => true,
        _ => false,
    }
}

/// What a listing has come to.
#[verifier::ext_equal]
pub struct ListingModel {
    pub step: ListStep,
    pub flow: EndpointFlow,
    /// How many endpoints of the direction there are, and which one it is about.
    pub count: u32,
    pub index: u32,
    pub id: Seq<char>,
    pub name: Seq<char>,
    pub endpoints: Seq<EndpointRecord>,
}

impl ListingModel {
    /// A listing of which nothing is done.
    pub open spec fn fresh() -> Self {
        ListingModel {
            step: ListStep::CreateEnumerator,
            flow: EndpointFlow::Render,
            count: 0,
            index: 0,
            id: Seq::empty(),
            name: Seq::empty(),
            endpoints: Seq::empty(),
        }
    }

    /// The listing with another call due.
    pub open spec fn due(self, step: ListStep) -> Self {
        ListingModel { step, ..self }
    }

    /// The listing turned to an endpoint of its direction, or to what comes behind the last:
    /// the other direction, and then nothing.
    pub open spec fn turned_to(self, index: int) -> Self {
        if index < self.count {
            ListingModel {
                index: index as u32,
                step: ListStep::GetItem { index: index as u32 },
                ..self
            }
        } else if self.flow == EndpointFlow::Render {
            ListingModel {
                flow: EndpointFlow::Capture,
                step: ListStep::EnumEndpoints { flow: EndpointFlow::Capture },
                ..self
            }
        } else {
            self.due(ListStep::Listed)
        }
    }

    /// The listing with the endpoint that it is about listed, turned to the next one.
    pub open spec fn listed(self, format: Option<EndpointFormat>) -> Self {
        (ListingModel {
            endpoints: self.endpoints.push(formatted(self.id, self.name, self.flow, format)),
            ..self
        }).turned_to(self.index + 1)
    }

    /// What is said when the call that is due fails.
    pub open spec fn fault(self, hresult: i32) -> WindowsFault {
        WindowsFault::HResult {
            operation: list_operation(self.step),
            hresult,
            endpoint_id: if names_endpoint(self.step) {
                Some(self.id)
            } else {
                None
            },
        }
    }

    /// What becomes of the listing when the call that was due went so. An endpoint whose
    /// format cannot be read is listed without one. A reply that does not belong to the call
    /// changes nothing.
    pub open spec fn next(self, event: ListEventModel) -> Result<ListingModel, WindowsFault> {
        match (self.step, event) {
            (ListStep::Listed, _) => Ok(self),
            (ListStep::ActivateClient, ListEventModel::Failed { .. }) => Ok(self.listed(None)),
            (ListStep::GetMixFormat, ListEventModel::Failed { .. }) => Ok(self.listed(None)),
            (_, ListEventModel::Failed { hresult }) => Err(self.fault(hresult)),
            (ListStep::CreateEnumerator, ListEventModel::Done) => Ok(
                self.due(ListStep::EnumEndpoints { flow: EndpointFlow::Render }),
            ),
            (ListStep::EnumEndpoints { .. }, ListEventModel::Done) => Ok(
                self.due(ListStep::GetCount),
            ),
            (ListStep::GetCount, ListEventModel::Count { count }) => Ok(
                (ListingModel { count, ..self }).turned_to(0),
            ),
            (ListStep::GetItem { .. }, ListEventModel::Done) => Ok(self.due(ListStep::GetId)),
            (ListStep::GetId, ListEventModel::Id { id: Some(id) }) => Ok(
                ListingModel { id, step: ListStep::OpenStore, ..self },
            ),
            (ListStep::GetId, ListEventModel::Id { id: None }) => Err(
                WindowsFault::InvalidFormat {
                    reason: "IMMDevice::GetId 返回空指针"@,
                    endpoint_id: None,
                },
            ),
            (ListStep::OpenStore, ListEventModel::Done) => Ok(self.due(ListStep::GetName)),
            (ListStep::GetName, ListEventModel::Name { name }) => Ok(
                ListingModel {
                    name: if name.len() == 0 {
                        self.id
                    } else {
                        name
                    },
                    step: ListStep::ClearName,
                    ..self
                },
            ),
            (ListStep::ClearName, ListEventModel::Done) => Ok(self.due(ListStep::ActivateClient)),
            (ListStep::ActivateClient, ListEventModel::Done) => Ok(
                self.due(ListStep::GetMixFormat),
            ),
            (ListStep::GetMixFormat, ListEventModel::MixFormat { raw }) => match read_format(
                self.id,
                raw,
            ) {
                Ok(format) => Ok(self.listed(Some(format))),
                Err(_) => Ok(self.listed(None)),
            },
            _ => Ok(self),
        }
    }
}

/// A listing of endpoints: those that play, and then those that record.
#[derive(Debug, PartialEq, Eq)]
pub struct EndpointListing {
    step: ListStep,
    flow: EndpointFlow,
    count: u32,
    index: u32,
    id: String,
    name: String,
    endpoints: Vec<EndpointInfo>,
}

impl View for EndpointListing {
    type V = ListingModel;

    closed spec fn view(&self) -> ListingModel {
        ListingModel {
            step: self.step,
            flow: self.flow,
            count: self.count,
            index: self.index,
            id: self.id@,
            name: self.name@,
            endpoints: endpoint_records(self.endpoints@),
        }
    }
}

/// The name of a call in error messages.
fn operation_of(step: ListStep) -> (name: &'static str)
    ensures
        name@ == list_operation(step),
{
    match step {
        ListStep::CreateEnumerator => "CoCreateInstance(MMDeviceEnumerator)",
        ListStep::EnumEndpoints { .. } => "IMMDeviceEnumerator::EnumAudioEndpoints",
        ListStep::GetCount => "IMMDeviceCollection::GetCount",
        ListStep::GetItem { .. } => "IMMDeviceCollection::Item",
        ListStep::GetId => "IMMDevice::GetId",
        ListStep::OpenStore => "IMMDevice::OpenPropertyStore",
        ListStep::GetName => "IPropertyStore::GetValue(PKEY_Device_FriendlyName)",
        ListStep::ClearName => "PropVariantClear(PKEY_Device_FriendlyName)",
        _ => "",
    }
}

impl EndpointListing {
    /// A listing of which nothing is done.
    pub fn new() -> (listing: Self)
        ensures
            listing@ == ListingModel::fresh(),
    {
        let listing = EndpointListing {
            step: ListStep::CreateEnumerator,
            flow: EndpointFlow::Render,
            count: 0,
            index: 0,
            id: String::new(),
            name: String::new(),
            endpoints: Vec::new(),
        };
        assert(listing@ =~= ListingModel::fresh());
        listing
    }

    /// The call that is due.
    pub fn step(&self) -> (step: ListStep)
        ensures
            step == self@.step,
    {
        self.step
    }

    fn failed(&self, hresult: i32) -> (error: WindowsAudioError)
        ensures
            error@ == self@.fault(hresult),
    {
        let known = match self.step {
            ListStep::OpenStore => true,
            ListStep::GetName => true,
            ListStep::ClearName => true,
            _ => false,
        };
        WindowsAudioError::HResult {
            operation: operation_of(self.step),
            hresult,
            endpoint_id: if known {
                Some(self.id.clone())
            } else {
                None
            },
        }
    }

    /// Turns to the endpoint behind the current one, or to the first.
    fn turn_to(self, index: u64) -> (listing: Self)
        ensures
            listing@ == self@.turned_to(index as int),
    {
        let mut listing = self;
        if index < listing.count as u64 {
            listing.index = index as u32;
            listing.step = ListStep::GetItem { index: index as u32 };
        } else if listing.flow == EndpointFlow::Render {
            listing.flow = EndpointFlow::Capture;
            listing.step = ListStep::EnumEndpoints { flow: EndpointFlow::Capture };
        } else {
            listing.step = ListStep::Listed;
        }
        listing
    }

    /// Lists the endpoint that the listing is about, and turns to the next one.
    fn list(self, format: Option<EndpointFormat>) -> (listing: Self)
        ensures
            listing@ == self@.listed(format),
    {
        let mut listing = self;
        let ghost before = listing@;
        let id = EndpointId(listing.id.clone());
        let name = listing.name.clone();
        let info = match format {
            Some(format) => EndpointInfo {
                id,
                name,
                flow: listing.flow,
                format: Some(format.audio_format()),
                bits_per_sample: Some(format.bits_per_sample),
                channel_mask: Some(format.channel_mask),
                is_float: Some(format.is_float),
                is_pcm: Some(format.is_pcm),
            },
            None => EndpointInfo {
                id,
                name,
                flow: listing.flow,
                format: None,
                bits_per_sample: None,
                channel_mask: None,
                is_float: None,
                is_pcm: None,
            },
        };
        let ghost record = endpoint_record(info);
        listing.endpoints.push(info);
        assert(record =~= formatted(before.id, before.name, before.flow, format));
        assert(listing@.endpoints =~= before.endpoints.push(record));
        let index: u64 = listing.index as u64 + 1;
        listing.turn_to(index)
    }

    /// Goes on after the call that was due, or says why nothing is listed.
    pub fn advance(self, event: ListEvent) -> (result: Result<Self, WindowsAudioError>)
        ensures
            match result {
                Ok(listing) => self@.next(event@) == Ok::<ListingModel, WindowsFault>(listing@),
                Err(e) => self@.next(event@) == Err::<ListingModel, WindowsFault>(e@),
            },
    {
        let mut listing = self;
        match (listing.step, event) {
            (ListStep::Listed, _) => Ok(listing),
            (ListStep::ActivateClient, ListEvent::Failed { .. }) => Ok(listing.list(None)),
            (ListStep::GetMixFormat, ListEvent::Failed { .. }) => Ok(listing.list(None)),
            (_, ListEvent::Failed { hresult }) => Err(listing.failed(hresult)),
            (ListStep::CreateEnumerator, ListEvent::Done) => {
                listing.step = ListStep::EnumEndpoints { flow: EndpointFlow::Render };
                Ok(listing)
            },
            (ListStep::EnumEndpoints { .. }, ListEvent::Done) => {
                listing.step = ListStep::GetCount;
                Ok(listing)
            },
            (ListStep::GetCount, ListEvent::Count { count }) => {
                listing.count = count;
                Ok(listing.turn_to(0))
            },
            (ListStep::GetItem { .. }, ListEvent::Done) => {
                listing.step = ListStep::GetId;
                Ok(listing)
            },
            (ListStep::GetId, ListEvent::Id { id: Some(id) }) => {
                listing.id = id;
                listing.step = ListStep::OpenStore;
                Ok(listing)
            },
            (ListStep::GetId, ListEvent::Id { id: None }) => Err(
                invalid_format("IMMDevice::GetId 返回空指针", None),
            ),
            (ListStep::OpenStore, ListEvent::Done) => {
                listing.step = ListStep::GetName;
                Ok(listing)
            },
            (ListStep::GetName, ListEvent::Name { name }) => {
                listing.name = if name.as_str().unicode_len() == 0 {
                    listing.id.clone()
                } else {
                    name
                };
                listing.step = ListStep::ClearName;
                Ok(listing)
            },
            (ListStep::ClearName, ListEvent::Done) => {
                listing.step = ListStep::ActivateClient;
                Ok(listing)
            },
            (ListStep::ActivateClient, ListEvent::Done) => {
                listing.step = ListStep::GetMixFormat;
                Ok(listing)
            },
            (ListStep::GetMixFormat, ListEvent::MixFormat { raw }) => {
                match read_mix_format(&listing.id, &raw) {
                    Ok(format) => Ok(listing.list(Some(format))),
                    Err(_) => Ok(listing.list(None)),
                }
            },
            _ => Ok(listing),
        }
    }

    /// The endpoints that were listed.
    pub fn into_endpoints(self) -> (endpoints: Vec<EndpointInfo>)
        ensures
            endpoint_records(endpoints@) == self@.endpoints,
    {
        self.endpoints
    }
}

/// Whether what plays is listed before what records, and nothing of a direction before its
/// turn.
pub open spec fn plays_before_records(listing: ListingModel) -> bool {
    &&& forall|i: int, j: int|
        0 <= i < j < listing.endpoints.len() && listing.endpoints[j].flow == EndpointFlow::Render
            ==> #[trigger] listing.endpoints[i].flow == (#[trigger] listing.endpoints[j]).flow
    &&& listing.flow == EndpointFlow::Render ==> forall|i: int|
        0 <= i < listing.endpoints.len() ==> (#[trigger] listing.endpoints[i]).flow
            == EndpointFlow::Render
}

/// Endpoints that play stand before those that record.
pub proof fn law_playing_endpoints_come_first(listing: ListingModel, event: ListEventModel)
    ensures
        plays_before_records(ListingModel::fresh()),
        plays_before_records(listing) ==> (listing.next(event) matches Ok(next)
            ==> plays_before_records(next)),
{
}

/// What was listed stays, and a call adds one endpoint at most.
pub proof fn law_listed_endpoints_stay(listing: ListingModel, event: ListEventModel)
    ensures
        listing.next(event) matches Ok(next) ==> listing.endpoints.is_prefix_of(next.endpoints)
            && next.endpoints.len() <= listing.endpoints.len() + 1,
{
}

/// Whatever comes of reading its format, an endpoint is listed under its identifier and its
/// name, and the listing goes on.
pub proof fn law_unreadable_format_is_left_out(listing: ListingModel, event: ListEventModel)
    requires
        listing.step == ListStep::GetMixFormat || listing.step == ListStep::ActivateClient,
        event is Failed || listing.step == ListStep::GetMixFormat && event is MixFormat,
    ensures
        listing.next(event) matches Ok(next) && next.endpoints.len() == listing.endpoints.len() + 1
            && next.endpoints.last().id == listing.id && next.endpoints.last().name
            == listing.name && (event is Failed ==> next.endpoints.last().format is None),
{
}

/// The call that is due in a listing of processes.
#[derive(Clone, Copy, Debug, PartialEq, Eq, Structural)]
pub enum SessionStep {
    CreateEnumerator,
    /// Collect the active endpoints that play.
    EnumEndpoints,
    GetCount,
    GetItem { index: u32 },
    GetId,
    ActivateManager,
    GetSessions,
    CountSessions,
    /// Ask which process a session of the endpoint belongs to.
    GetSession { index: u32 },
    /// Look a process up.
    LookUp { pid: u32 },
    /// Nothing: all processes are listed.
    Listed,
}

/// How a call went.
#[derive(Debug, PartialEq, Eq)]
pub enum SessionEvent {
    Done,
    Failed { hresult: i32 },
    Count { count: u32 },
    /// The identifier of the endpoint, where there is one.
    Id { id: Option<String> },
    /// The process of a session; none where the session has just ended.
    Session { pid: Option<u32> },
    Found(ProcessLookup),
}

/// What a `SessionEvent` says.
#[verifier::ext_equal]
pub enum SessionEventModel {
    Done,
    Failed { hresult: i32 },
    Count { count: u32 },
    Id { id: Option<Seq<char>> },
    Session { pid: Option<u32> },
    Found(ProcessLookup),
}

impl View for SessionEvent {
    type V = SessionEventModel;

    open spec fn view(&self) -> SessionEventModel {
        match *self {
            SessionEvent::Done => SessionEventModel::Done,
            SessionEvent::Failed { hresult } => SessionEventModel::Failed { hresult },
            SessionEvent::Count { count } => SessionEventModel::Count { count },
            SessionEvent::Id { id } => SessionEventModel::Id {
                id: crate::routing::optional_text(id),
            },
            SessionEvent::Session { pid } => SessionEventModel::Session { pid },
            SessionEvent::Found(lookup) => SessionEventModel::Found(lookup),
        }
    }
}

/// The name of a call in error messages.
pub open spec fn session_operation(step: SessionStep) -> Seq<char> {
    match step {
        SessionStep::CreateEnumerator => "CoCreateInstance(MMDeviceEnumerator)"@,
        SessionStep::EnumEndpoints => "IMMDeviceEnumerator::EnumAudioEndpoints"@,
        SessionStep::GetCount => "IMMDeviceCollection::GetCount"@,
        SessionStep::GetItem { .. } => "IMMDeviceCollection::Item"@,
        SessionStep::GetId => "IMMDevice::GetId"@,
        SessionStep::ActivateManager => "IMMDevice::Activate(IAudioSessionManager2)"@,
        SessionStep::GetSessions => "IAudioSessionManager2::GetSessionEnumerator"@,
        SessionStep::CountSessions => "IAudioSessionEnumerator::GetCount"@,
        _ => ""@,
    }
}

/// Whether the endpoint that a call is about is known.
pub open spec fn session_endpoint_is_known(step: SessionStep) -> bool {
    match step {
        SessionStep::ActivateManager => true,
        SessionStep::GetSessions => true,
        SessionStep::CountSessions => true,
        _ => false,
    }
}

/// Processes by their numbers.
pub open spec fn by_pid(processes: Seq<ProcessRecord>) -> Map<u32, ProcessRecord> {
    Map::new(
        |pid: u32| exists|i: int| 0 <= i < processes.len() && (#[trigger] processes[i]).pid == pid,
        |pid: u32|
            processes[choose|i: int|
                0 <= i < processes.len() && (#[trigger] processes[i]).pid == pid],
    )
}

/// What a listing of processes has come to.
#[verifier::ext_equal]
pub struct SessionModel {
    pub step: SessionStep,
    /// How many endpoints there are, and which one it is about.
    pub count: u32,
    pub index: u32,
    pub id: Seq<char>,
    /// How many sessions the endpoint has, and which one it is about.
    pub sessions: u32,
    pub session: u32,
    /// The processes that were found, by their numbers.
    pub processes: Map<u32, ProcessRecord>,
}

impl SessionModel {
    /// A listing of which nothing is done.
    pub open spec fn fresh() -> Self {
        SessionModel {
            step: SessionStep::CreateEnumerator,
            count: 0,
            index: 0,
            id: Seq::empty(),
            sessions: 0,
            session: 0,
            processes: Map::empty(),
        }
    }

    /// The listing with another call due.
    pub open spec fn due(self, step: SessionStep) -> Self {
        SessionModel { step, ..self }
    }

    /// The listing turned to an endpoint, or done behind the last.
    pub open spec fn at_endpoint(self, index: int) -> Self {
        if index < self.count {
            SessionModel {
                index: index as u32,
                step: SessionStep::GetItem { index: index as u32 },
                ..self
            }
        } else {
            self.due(SessionStep::Listed)
        }
    }

    /// The listing turned to a session of its endpoint, or to the next endpoint behind the
    /// last.
    pub open spec fn at_session(self, session: int) -> Self {
        if session < self.sessions {
            SessionModel {
                session: session as u32,
                step: SessionStep::GetSession { index: session as u32 },
                ..self
            }
        } else {
            self.at_endpoint(self.index + 1)
        }
    }

    /// Whether a process is to be looked up: it is new, and not the session of the system.
    pub open spec fn wants(self, pid: u32) -> bool {
        pid != 0 && !self.processes.contains_key(pid)
    }

    /// What is said when the call that is due fails.
    pub open spec fn fault(self, hresult: i32) -> WindowsFault {
        WindowsFault::HResult {
            operation: session_operation(self.step),
            hresult,
            endpoint_id: if session_endpoint_is_known(self.step) {
                Some(self.id)
            } else {
                None
            },
        }
    }

    /// What becomes of the listing when the call that was due went so. Sessions that ended
    /// meanwhile are passed over; a reply that does not belong to the call changes nothing.
    pub open spec fn next(self, event: SessionEventModel) -> Result<SessionModel, WindowsFault> {
        match (self.step, event) {
            (SessionStep::Listed, _) => Ok(self),
            (SessionStep::GetSession { .. }, SessionEventModel::Session { pid: Some(pid) }) => {
                if self.wants(pid) {
                    Ok(self.due(SessionStep::LookUp { pid }))
                } else {
                    Ok(self.at_session(self.session + 1))
                }
            },
            (SessionStep::GetSession { .. }, SessionEventModel::Session { pid: None }) => Ok(
                self.at_session(self.session + 1),
            ),
            (SessionStep::GetSession { .. }, _) => Ok(self),
            (SessionStep::LookUp { pid }, SessionEventModel::Found(lookup)) => {
                let found = match described_process(pid, lookup) {
                    Some(record) if self.wants(pid) => SessionModel {
                        processes: self.processes.insert(pid, record),
                        ..self
                    },
                    _ => self,
                };
                Ok(found.at_session(self.session + 1))
            },
            (SessionStep::LookUp { .. }, _) => Ok(self),
            (_, SessionEventModel::Failed { hresult }) => Err(self.fault(hresult)),
            (SessionStep::CreateEnumerator, SessionEventModel::Done) => Ok(
                self.due(SessionStep::EnumEndpoints),
            ),
            (SessionStep::EnumEndpoints, SessionEventModel::Done) => Ok(
                self.due(SessionStep::GetCount),
            ),
            (SessionStep::GetCount, SessionEventModel::Count { count }) => Ok(
                (SessionModel { count, ..self }).at_endpoint(0),
            ),
            (SessionStep::GetItem { .. }, SessionEventModel::Done) => Ok(
                self.due(SessionStep::GetId),
            ),
            (SessionStep::GetId, SessionEventModel::Id { id: Some(id) }) => Ok(
                SessionModel { id, step: SessionStep::ActivateManager, ..self },
            ),
            (SessionStep::GetId, SessionEventModel::Id { id: None }) => Err(
                WindowsFault::InvalidFormat {
                    reason: "IMMDevice::GetId 返回空指针"@,
                    endpoint_id: None,
                },
            ),
            (SessionStep::ActivateManager, SessionEventModel::Done) => Ok(
                self.due(SessionStep::GetSessions),
            ),
            (SessionStep::GetSessions, SessionEventModel::Done) => Ok(
                self.due(SessionStep::CountSessions),
            ),
            (SessionStep::CountSessions, SessionEventModel::Count { count }) => Ok(
                (SessionModel { sessions: count, ..self }).at_session(0),
            ),
            _ => Ok(self),
        }
    }
}

/// A listing of the processes that play audio: each once, in the order of their numbers.
pub struct SessionListing {
    step: SessionStep,
    count: u32,
    index: u32,
    id: String,
    sessions: u32,
    session: u32,
    processes: ProcessList,
}

impl View for SessionListing {
    type V = SessionModel;

    closed spec fn view(&self) -> SessionModel {
        SessionModel {
            step: self.step,
            count: self.count,
            index: self.index,
            id: self.id@,
            sessions: self.sessions,
            session: self.session,
            processes: by_pid(self.processes@),
        }
    }
}

/// The name of a call in error messages.
fn operation_of_session(step: SessionStep) -> (name: &'static str)
    ensures
        name@ == session_operation(step),
{
    match step {
        SessionStep::CreateEnumerator => "CoCreateInstance(MMDeviceEnumerator)",
        SessionStep::EnumEndpoints => "IMMDeviceEnumerator::EnumAudioEndpoints",
        SessionStep::GetCount => "IMMDeviceCollection::GetCount",
        SessionStep::GetItem { .. } => "IMMDeviceCollection::Item",
        SessionStep::GetId => "IMMDevice::GetId",
        SessionStep::ActivateManager => "IMMDevice::Activate(IAudioSessionManager2)",
        SessionStep::GetSessions => "IAudioSessionManager2::GetSessionEnumerator",
        SessionStep::CountSessions => "IAudioSessionEnumerator::GetCount",
        _ => "",
    }
}

/// A new process among others is found by its number, and the others still are.
proof fn lemma_added_by_pid(processes: Seq<ProcessRecord>, at: int, record: ProcessRecord)
    requires
        0 <= at <= processes.len(),
        forall|i: int| 0 <= i < processes.len() ==> (#[trigger] processes[i]).pid != record.pid,
        ordered_by_pid(processes.insert(at, record)),
    ensures
        by_pid(processes.insert(at, record)) == by_pid(processes).insert(record.pid, record),
{
    let added = processes.insert(at, record);
    let before = by_pid(processes);
    let after = by_pid(added);
    assert forall|pid: u32| after.contains_key(pid) <==> before.insert(
        record.pid,
        record,
    ).contains_key(pid) by {
        if after.contains_key(pid) && pid != record.pid {
            let i = choose|i: int| 0 <= i < added.len() && (#[trigger] added[i]).pid == pid;
            if i < at {
                assert(processes[i].pid == pid);
            } else {
                assert(i != at);
                assert(processes[i - 1] == added[i]);
            }
        }
        if before.contains_key(pid) {
            let i = choose|i: int|
                0 <= i < processes.len() && (#[trigger] processes[i]).pid == pid;
            if i < at {
                assert(added[i] == processes[i]);
            } else {
                assert(added[i + 1] == processes[i]);
            }
        }
        if pid == record.pid {
            assert(added[at].pid == pid);
        }
    }
    assert forall|pid: u32| after.contains_key(pid) implies #[trigger] after[pid]
        == before.insert(record.pid, record)[pid] by {
        let i = choose|i: int| 0 <= i < added.len() && (#[trigger] added[i]).pid == pid;
        assert(after[pid] == added[i]);
        if pid == record.pid {
            assert(added[at].pid == pid);
            assert(i == at);
        } else {
            assert(before.contains_key(pid));
            let j = choose|j: int|
                0 <= j < processes.len() && (#[trigger] processes[j]).pid == pid;
            assert(before[pid] == processes[j]);
            let k = if j < at {
                j
            } else {
                j + 1
            };
            assert(added[k] == processes[j]);
            assert(i == k);
        }
    }
    assert(after =~= before.insert(record.pid, record));
}

impl SessionListing {
    /// A listing of which nothing is done.
    pub fn new() -> (listing: Self)
        ensures
            listing@ == SessionModel::fresh(),
    {
        let listing = SessionListing {
            step: SessionStep::CreateEnumerator,
            count: 0,
            index: 0,
            id: String::new(),
            sessions: 0,
            session: 0,
            processes: ProcessList::new(),
        };
        assert(listing@.processes =~= Map::empty());
        assert(listing@ =~= SessionModel::fresh());
        listing
    }

    /// The call that is due.
    pub fn step(&self) -> (step: SessionStep)
        ensures
            step == self@.step,
    {
        self.step
    }

    fn failed(&self, hresult: i32) -> (error: WindowsAudioError)
        ensures
            error@ == self@.fault(hresult),
    {
        let known = match self.step {
            SessionStep::ActivateManager => true,
            SessionStep::GetSessions => true,
            SessionStep::CountSessions => true,
            _ => false,
        };
        WindowsAudioError::HResult {
            operation: operation_of_session(self.step),
            hresult,
            endpoint_id: if known {
                Some(self.id.clone())
            } else {
                None
            },
        }
    }

    fn turn_to_endpoint(self, index: u64) -> (listing: Self)
        ensures
            listing@ == self@.at_endpoint(index as int),
    {
        let mut listing = self;
        if index < listing.count as u64 {
            listing.index = index as u32;
            listing.step = SessionStep::GetItem { index: index as u32 };
        } else {
            listing.step = SessionStep::Listed;
        }
        listing
    }

    fn turn_to_session(self, session: u64) -> (listing: Self)
        ensures
            listing@ == self@.at_session(session as int),
    {
        let mut listing = self;
        if session < listing.sessions as u64 {
            listing.session = session as u32;
            listing.step = SessionStep::GetSession { index: session as u32 };
            return listing;
        }
        let index: u64 = listing.index as u64 + 1;
        listing.turn_to_endpoint(index)
    }

    /// Whether a process is to be looked up.
    fn wants(&self, pid: u32) -> (wanted: bool)
        ensures
            wanted == self@.wants(pid),
            wanted ==> forall|i: int|
                0 <= i < self.processes@.len() ==> (#[trigger] self.processes@[i]).pid != pid,
    {
        self.processes.wants(pid)
    }

    /// Adds a process that is not listed.
    fn add(self, info: ProcessInfo) -> (listing: Self)
        requires
            forall|i: int|
                0 <= i < self.processes@.len() ==> (#[trigger] self.processes@[i]).pid != info.pid,
        ensures
            listing@ == (SessionModel {
                processes: self@.processes.insert(info.pid, info@),
                ..self@
            }),
    {
        let ghost before = self.processes@;
        let ghost record = info@;
        let SessionListing { step, count, index, id, sessions, session, processes } = self;
        let processes = processes.add(info);
        proof {
            let at = choose|at: int|
                0 <= at <= before.len() && processes@ == #[trigger] before.insert(at, record);
            lemma_added_by_pid(before, at, record);
        }
        SessionListing { step, count, index, id, sessions, session, processes }
    }

    /// Goes on after the call that was due, or says why nothing is listed.
    pub fn advance(self, event: SessionEvent) -> (result: Result<Self, WindowsAudioError>)
        ensures
            match result {
                Ok(listing) => self@.next(event@) == Ok::<SessionModel, WindowsFault>(listing@),
                Err(e) => self@.next(event@) == Err::<SessionModel, WindowsFault>(e@),
            },
    {
        let mut listing = self;
        let behind: u64 = listing.session as u64 + 1;
        match (listing.step, event) {
            (SessionStep::Listed, _) => Ok(listing),
            (SessionStep::GetSession { .. }, SessionEvent::Session { pid: Some(pid) }) => {
                if listing.wants(pid) {
                    listing.step = SessionStep::LookUp { pid };
                    Ok(listing)
                } else {
                    Ok(listing.turn_to_session(behind))
                }
            },
            (SessionStep::GetSession { .. }, SessionEvent::Session { pid: None }) => Ok(
                listing.turn_to_session(behind),
            ),
            (SessionStep::GetSession { .. }, _) => Ok(listing),
            (SessionStep::LookUp { pid }, SessionEvent::Found(lookup)) => {
                match describe_process(pid, lookup) {
                    Some(info) => {
                        if listing.wants(pid) {
                            Ok(listing.add(info).turn_to_session(behind))
                        } else {
                            Ok(listing.turn_to_session(behind))
                        }
                    },
                    None => Ok(listing.turn_to_session(behind)),
                }
            },
            (SessionStep::LookUp { .. }, _) => Ok(listing),
            (_, SessionEvent::Failed { hresult }) => Err(listing.failed(hresult)),
            (SessionStep::CreateEnumerator, SessionEvent::Done) => {
                listing.step = SessionStep::EnumEndpoints;
                Ok(listing)
            },
            (SessionStep::EnumEndpoints, SessionEvent::Done) => {
                listing.step = SessionStep::GetCount;
                Ok(listing)
            },
            (SessionStep::GetCount, SessionEvent::Count { count }) => {
                listing.count = count;
                Ok(listing.turn_to_endpoint(0))
            },
            (SessionStep::GetItem { .. }, SessionEvent::Done) => {
                listing.step = SessionStep::GetId;
                Ok(listing)
            },
            (SessionStep::GetId, SessionEvent::Id { id: Some(id) }) => {
                listing.id = id;
                listing.step = SessionStep::ActivateManager;
                Ok(listing)
            },
            (SessionStep::GetId, SessionEvent::Id { id: None }) => Err(
                invalid_format("IMMDevice::GetId 返回空指针", None),
            ),
            (SessionStep::ActivateManager, SessionEvent::Done) => {
                listing.step = SessionStep::GetSessions;
                Ok(listing)
            },
            (SessionStep::GetSessions, SessionEvent::Done) => {
                listing.step = SessionStep::CountSessions;
                Ok(listing)
            },
            (SessionStep::CountSessions, SessionEvent::Count { count }) => {
                listing.sessions = count;
                Ok(listing.turn_to_session(0))
            },
            _ => Ok(listing),
        }
    }

    /// The processes that were listed.
    pub fn into_processes(self) -> (processes: Vec<ProcessInfo>)
        ensures
            ordered_by_pid(process_models(processes@)),
            by_pid(process_models(processes@)) == self@.processes,
    {
        self.processes.into_processes()
    }
}

/// A process that was found stays as it was found, whatever plays besides.
pub proof fn law_found_processes_stay(listing: SessionModel, event: SessionEventModel, pid: u32)
    requires
        listing.processes.contains_key(pid),
    ensures
        listing.next(event) matches Ok(next) ==> next.processes.contains_key(pid)
            && next.processes[pid] == listing.processes[pid],
{
}

/// The session of the system is never listed.
pub proof fn law_system_session_is_left_out(listing: SessionModel, event: SessionEventModel)
    requires
        !listing.processes.contains_key(0),
    ensures
        listing.next(event) matches Ok(next) ==> !next.processes.contains_key(0),
{
}

} // verus!
