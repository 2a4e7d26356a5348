//! What is read of devices and done to them, said of the bytes and the calls.

use crate::windows::endpoint::{
    decoded_format, le_u16, subformat, EndpointFlow, EndpointFormat, WindowsFault,
};
use crate::windows::listing::{
    EndpointRecord, ListEventModel, ListStep, ListingModel, SessionEventModel, SessionModel,
    SessionStep,
};
use crate::windows::open::{
    activity_after, ActivityStep, EventModel, OpenStep, OpeningModel, StreamKind,
};
use crate::windows::process::{
    base64_at, base64_char, base64_text, described_process, file_name, name_start, ProcessLookup,
};
use crate::windows::stream::{
    drain_has_room, drained_packets, filled, packet_of, render_plan, CapturePacket, RenderPlan,
    ResamplerShape,
};
use vstd::prelude::*;

verus! {

/// The number that two or four bytes of a format are, the lowest first.
pub open spec fn number_at(raw: Seq<u8>, at: int, bytes: nat) -> int
    decreases bytes,
{
    if bytes == 0 {
        0
    } else {
        raw[at] + 256 * number_at(raw, at + 1, (bytes - 1) as nat)
    }
}

/// Whether a format has the part that names its speakers and its samples.
pub open spec fn names_samples(raw: Seq<u8>) -> bool {
    number_at(raw, 0, 2) == 65534 && number_at(raw, 16, 2) >= 22
}

/// A format can be read where its first eighteen bytes are there with as many more as they say,
/// and it has channels and a rate. Each of its numbers stands at its place.
pub proof fn law_formats_are_read_by_their_layout(raw: Seq<u8>)
    ensures
        decoded_format(raw) is Ok <==> {
            &&& raw.len() >= 18
            &&& number_at(raw, 2, 2) > 0
            &&& number_at(raw, 4, 4) > 0
            &&& raw.len() >= 18 + number_at(raw, 16, 2)
        },
        decoded_format(raw) matches Ok(format) ==> {
            &&& format.channels == number_at(raw, 2, 2)
            &&& format.sample_rate == number_at(raw, 4, 4)
            &&& format.bits_per_sample == number_at(raw, 14, 2)
            &&& format.channel_mask == if names_samples(raw) {
                number_at(raw, 20, 4)
            } else {
                0
            }
        },
{
    reveal_with_fuel(number_at, 5);
}

/// The samples of a format are floats or integers by the number in front of it; where that says
/// so, by the first byte of the identifier that stands behind the speakers instead.
pub proof fn law_sample_types_are_read_by_their_numbers(raw: Seq<u8>)
    ensures
        decoded_format(raw) matches Ok(format) ==> {
            let tag = number_at(raw, 0, 2);
            &&& tag == 3 ==> format.is_float && !format.is_pcm
            &&& tag == 1 ==> format.is_pcm && !format.is_float
            &&& tag != 1 && tag != 3 && !names_samples(raw) ==> !format.is_float && !format.is_pcm
            &&& names_samples(raw) && raw.len() >= 40 ==> {
                let known = raw.subrange(25, 40) == subformat(0).skip(1);
                &&& format.is_float <==> known && raw[24] == 3
                &&& format.is_pcm <==> known && raw[24] == 1
            }
        },
{
    reveal_with_fuel(number_at, 3);
    if raw.len() >= 40 {
        let id = raw.subrange(24, 40);
        let rest = raw.subrange(25, 40);
        assert(id[0] == raw[24]);
        assert(rest =~= id.skip(1));
        assert(subformat(3).skip(1) =~= subformat(0).skip(1));
        assert(subformat(1).skip(1) =~= subformat(0).skip(1));
        assert(subformat(3)[0] == 3 && subformat(1)[0] == 1);
        if rest == subformat(0).skip(1) {
            assert forall|i: int| 0 < i < 16 implies id[i] == subformat(3)[i] && id[i] == subformat(
                1,
            )[i] by {
                assert(id[i] == rest[i - 1]);
                assert(subformat(3)[i] == subformat(3).skip(1)[i - 1]);
                assert(subformat(1)[i] == subformat(1).skip(1)[i - 1]);
            }
            if raw[24] == 3 {
                assert(id =~= subformat(3));
            }
            if raw[24] == 1 {
                assert(id =~= subformat(1));
            }
        }
    }
}

/// A device can be played on with floats of thirty-two bits for two channels, and recorded from
/// at forty-eight thousand of them a second.
pub proof fn law_usable_formats(format: EndpointFormat)
    ensures
        format.renders() <==> format.is_float && format.bits_per_sample == 32 && format.channels
            == 2,
        format.captures() <==> format.is_float && format.bits_per_sample == 32 && format.channels
            == 2 && format.sample_rate == 48000,
{
}

/// A block is written where the device has room for all of it, and no more than the room or a
/// whole block is; otherwise it waits. A device cannot have more waiting than it has room for.
pub proof fn law_blocks_are_written_where_they_fit(
    endpoint: Seq<char>,
    buffer_frames: u32,
    block_frames: usize,
    input_frames: nat,
    padding: u32,
    shape: ResamplerShape,
)
    requires
        input_frames <= block_frames <= u32::MAX,
    ensures
        ({
            let room = buffer_frames - padding;
            let plain = render_plan(
                endpoint,
                buffer_frames,
                block_frames,
                input_frames,
                padding,
                None,
            );
            let resampled = render_plan(
                endpoint,
                buffer_frames,
                block_frames,
                input_frames,
                padding,
                Some(shape),
            );
            &&& plain is Err <==> room < 0
            &&& plain == Ok::<RenderPlan, WindowsFault>(RenderPlan::NoSpace) <==> room == 0 || 0
                <= room < input_frames
            &&& plain matches Ok(RenderPlan::Write { frames }) ==> {
                &&& input_frames <= frames <= room
                &&& frames <= block_frames
                &&& frames == room || frames == block_frames
            }
            &&& resampled is Err <==> room < 0 || (room > 0 && input_frames > shape.input_frames)
            &&& resampled == Ok::<RenderPlan, WindowsFault>(
                RenderPlan::Resample { input_frames: shape.input_frames },
            ) <==> input_frames <= shape.input_frames && 0 < room && shape.output_frames <= room
            &&& resampled == Ok::<RenderPlan, WindowsFault>(RenderPlan::NoSpace) || resampled
                == Ok::<RenderPlan, WindowsFault>(
                RenderPlan::Resample { input_frames: shape.input_frames },
            ) || resampled is Err
        }),
{
}

/// A buffer holds the samples of a block in their order, and silence behind them.
pub proof fn law_buffer_is_filled_with_silence<S>(
    samples: Seq<S>,
    frames: nat,
    silence: S,
    i: int,
)
    requires
        0 <= i < 2 * frames,
    ensures
        filled(samples, frames, silence).len() == 2 * frames,
        i < samples.len() ==> filled(samples, frames, silence)[i] == samples[i],
        i >= samples.len() ==> filled(samples, frames, silence)[i] == silence,
{
}

/// What is taken from a device adds up: one packet, its frames, and each of its marks.
pub proof fn law_packets_add_up(packets: Seq<CapturePacket>, packet: CapturePacket)
    requires
        drain_has_room(drained_packets(packets)),
    ensures
        ({
            let (before, after) = (drained_packets(packets), drained_packets(packets.push(packet)));
            let one = |mark: bool|
                if mark {
                    1int
                } else {
                    0
                };
            &&& after.packets == before.packets + 1
            &&& after.frames == before.frames + packet.frames
            &&& after.silent_packets == before.silent_packets + one(packet.silent)
            &&& after.discontinuities == before.discontinuities + one(packet.discontinuity)
            &&& after.timestamp_errors == before.timestamp_errors + one(packet.timestamp_error)
        }),
        drained_packets(Seq::empty()).packets == 0,
        drained_packets(Seq::empty()).frames == 0,
        drained_packets(Seq::empty()).silent_packets == 0,
        drained_packets(Seq::empty()).discontinuities == 0,
        drained_packets(Seq::empty()).timestamp_errors == 0,
{
    assert(packets.push(packet).drop_last() =~= packets);
}

/// The marks of a packet are the three lowest bits of what the device says of it: a gap before
/// it, silence, and a time that is wrong.
pub proof fn law_marks_of_a_packet(frames: u32, flags: u32)
    ensures
        packet_of(frames, flags).frames == frames,
        packet_of(frames, flags).discontinuity <==> flags % 2 == 1,
        packet_of(frames, flags).silent <==> flags / 2 % 2 == 1,
        packet_of(frames, flags).timestamp_error <==> flags / 4 % 2 == 1,
{
    assert((flags & 1 != 0) == (flags % 2 == 1) && (flags & 2 != 0) == (flags / 2 % 2 == 1) && (
    flags & 4 != 0) == (flags / 4 % 2 == 1)) by (bit_vector);
}

/// A device is opened call by call, each after the one that it needs; a process by another way
/// to the same end. Where the rates differ, what is played is resampled.
pub proof fn law_streams_are_opened_in_order(opening: OpeningModel)
    ensures
        ({
            let next = opening.next_step();
            let process = opening.kind == StreamKind::ProcessLoopback;
            let differs = opening.format matches Some(format) && format.sample_rate != 48000;
            match opening.step {
                OpenStep::InitializeCom => next == if process {
                    OpenStep::CreateEvent
                } else {
                    OpenStep::CreateEnumerator
                },
                OpenStep::CreateEnumerator => next == OpenStep::GetDevice,
                OpenStep::GetDevice => next == OpenStep::GetState,
                OpenStep::GetState => next == OpenStep::QueryEndpoint,
                OpenStep::QueryEndpoint => next == OpenStep::GetDataFlow,
                OpenStep::GetDataFlow => next == OpenStep::ActivateClient,
                OpenStep::ActivateClient => next == OpenStep::GetMixFormat,
                OpenStep::CreateEvent => next == OpenStep::CreateCallbackEvent,
                OpenStep::CreateCallbackEvent => next == OpenStep::ActivateAsync,
                OpenStep::ActivateAsync => next == OpenStep::WaitActivation,
                OpenStep::WaitActivation => next == OpenStep::GetActivateResult,
                OpenStep::GetActivateResult => next == OpenStep::WaitCallback,
                OpenStep::GetMixFormat => next == OpenStep::InitializeClient,
                OpenStep::WaitCallback => next == OpenStep::InitializeClient,
                OpenStep::InitializeClient => next == if process {
                    OpenStep::GetService
                } else {
                    OpenStep::GetBufferSize
                },
                OpenStep::GetBufferSize => next == if opening.kind == StreamKind::Render
                    && differs {
                    OpenStep::BuildResampler
                } else {
                    OpenStep::GetService
                },
                OpenStep::BuildResampler => next == OpenStep::GetService,
                OpenStep::GetService => next == OpenStep::StartClient,
                OpenStep::StartClient => next == OpenStep::Opened,
                OpenStep::Opened => next == OpenStep::Opened,
            }
        }),
{
}

/// An opening goes on exactly where the device is active, has the direction that its use asks
/// for, gives a format that can be used and a buffer that is not empty; a call that fails, or
/// whose reply does not come, ends it.
pub proof fn law_what_an_opening_ends_at(
    opening: OpeningModel,
    hresult: i32,
    active: bool,
    flow: EndpointFlow,
    frames: u32,
    signaled: bool,
    has_client: bool,
)
    ensures
        opening.fault(EventModel::Done) is None,
        opening.fault(EventModel::Failed { hresult }) matches Some(
            WindowsFault::HResult { hresult: code, endpoint_id, .. },
        ) && code == hresult && endpoint_id == Some(opening.endpoint),
        opening.fault(EventModel::State { active }) is None <==> active,
        opening.fault(EventModel::Flow { flow }) is None <==> {
            if opening.kind == StreamKind::Capture {
                flow == EndpointFlow::Capture
            } else {
                flow == EndpointFlow::Render
            }
        },
        opening.fault(EventModel::BufferSize { frames }) is None <==> frames > 0 || opening.kind
            != StreamKind::Render,
        opening.fault(EventModel::Wait { signaled }) is None <==> signaled,
        opening.fault(EventModel::Activated { hresult, has_client }) is None <==> hresult >= 0
            && has_client,
        opening.fault(EventModel::Com { hresult }) is None <==> (hresult >= 0 || hresult
            + 0x1_0000_0000 == 0x8001_0106) && (opening.kind == StreamKind::Render ==> 0
            < opening.block_frames <= u32::MAX),
        opening.after(EventModel::BufferSize { frames }).buffer_frames == frames,
        opening.after(EventModel::Com { hresult }).uninitialize_com <==> hresult == 0 || hresult
            == 1,
{
}

/// The format of a device is the one that its bytes say; a stream is opened with it exactly
/// where it can be played on or recorded from.
pub proof fn law_streams_are_opened_with_the_devices_format(opening: OpeningModel, raw: Seq<u8>)
    requires
        raw.len() >= 18 ==> le_u16(raw, 16) <= 4096,
    ensures
        opening.fault(EventModel::MixFormat { raw: Some(raw) }) is None <==> (decoded_format(
            raw,
        ) matches Ok(format) && format.is_float && format.bits_per_sample == 32
            && format.channels == 2),
        opening.fault(EventModel::MixFormat { raw: Some(raw) }) is None ==> opening.after(
            EventModel::MixFormat { raw: Some(raw) },
        ).format == Some(decoded_format(raw)->Ok_0),
        opening.fault(EventModel::MixFormat { raw: None }) is Some,
{
}

/// An endpoint is active where it is found, is in use, and has the direction that was asked for;
/// one that is gone is not active, and that is no fault.
pub proof fn law_activity_is_found_out(
    endpoint: Seq<char>,
    expected: EndpointFlow,
    flow: EndpointFlow,
    hresult: i32,
)
    ensures
        ({
            let known = |active: bool|
                Ok::<ActivityStep, WindowsFault>(ActivityStep::Known { active });
            let call = |step: OpenStep|
                Ok::<ActivityStep, WindowsFault>(ActivityStep::Call { step });
            let after = |step: OpenStep, event: EventModel|
                activity_after(step, event, endpoint, expected);
            &&& after(OpenStep::CreateEnumerator, EventModel::Done) == call(OpenStep::GetDevice)
            &&& after(OpenStep::GetDevice, EventModel::Done) == call(OpenStep::GetState)
            &&& after(OpenStep::GetState, EventModel::State { active: true }) == call(
                OpenStep::QueryEndpoint,
            )
            &&& after(OpenStep::GetState, EventModel::State { active: false }) == known(false)
            &&& after(OpenStep::QueryEndpoint, EventModel::Done) == call(OpenStep::GetDataFlow)
            &&& after(OpenStep::GetDataFlow, EventModel::Flow { flow }) == known(flow == expected)
            &&& hresult + 0x1_0000_0000 == 0x8007_0490 ==> after(
                OpenStep::GetDevice,
                EventModel::Failed { hresult },
            ) == known(false)
            &&& hresult >= 0 ==> after(OpenStep::GetDevice, EventModel::Failed { hresult }) is Err
            &&& after(OpenStep::GetState, EventModel::Failed { hresult }) is Err
        }),
{
}

/// Of a device that is listed the identifier, the name, the direction and the format are what
/// was read of it; one without a name goes by its identifier. The next one follows, and after
/// the last one that plays those that record.
pub proof fn law_devices_are_listed_as_they_are(
    listing: ListingModel,
    name: Seq<char>,
    id: Seq<char>,
    raw: Seq<u8>,
    count: u32,
)
    requires
        listing.index < u32::MAX,
    ensures
        listing.step == ListStep::GetId ==> (listing.next(
            ListEventModel::Id { id: Some(id) },
        ) matches Ok(next) && next.id == id && next.step == ListStep::OpenStore && next.endpoints
            == listing.endpoints),
        listing.step == ListStep::GetName ==> (listing.next(
            ListEventModel::Name { name },
        ) matches Ok(next) && next.name == if name.len() == 0 {
            listing.id
        } else {
            name
        }),
        listing.step == ListStep::GetCount ==> (listing.next(
            ListEventModel::Count { count },
        ) matches Ok(next) && next.count == count && next.endpoints == listing.endpoints && (count
            > 0 ==> next.step == ListStep::GetItem { index: 0 } && next.flow == listing.flow)),
        listing.step == ListStep::GetMixFormat ==> (listing.next(
            ListEventModel::MixFormat { raw: Some(raw) },
        ) matches Ok(next) && {
            &&& next.endpoints.len() == listing.endpoints.len() + 1
            &&& forall|i: int|
                0 <= i < listing.endpoints.len() ==> #[trigger] next.endpoints[i]
                    == listing.endpoints[i]
            &&& next.endpoints.last().id == listing.id
            &&& next.endpoints.last().name == listing.name
            &&& next.endpoints.last().flow == listing.flow
            &&& raw.len() >= 18 && le_u16(raw, 16) <= 4096 ==> {
                &&& decoded_format(raw) is Err ==> next.endpoints.last().format is None
                &&& decoded_format(raw) matches Ok(format) ==> tells_format(
                    next.endpoints.last(),
                    format,
                )
            }
            &&& listing.index + 1 < listing.count ==> next.step == ListStep::GetItem {
                index: (listing.index + 1) as u32,
            } && next.flow == listing.flow
            &&& listing.index + 1 >= listing.count && listing.flow == EndpointFlow::Render
                ==> next.step == ListStep::EnumEndpoints { flow: EndpointFlow::Capture }
                && next.flow == EndpointFlow::Capture
            &&& listing.index + 1 >= listing.count && listing.flow == EndpointFlow::Capture
                ==> next.step == ListStep::Listed
        }),
{
}

/// Whether what is listed of a device says its format.
pub open spec fn tells_format(record: EndpointRecord, format: EndpointFormat) -> bool {
    &&& record.format matches Some(told) && told.sample_rate == format.sample_rate && told.channels
        == format.channels
    &&& record.bits_per_sample == Some(format.bits_per_sample)
    &&& record.channel_mask == Some(format.channel_mask)
    &&& record.is_float == Some(format.is_float)
    &&& record.is_pcm == Some(format.is_pcm)
}

/// A process that plays is looked up once, by its number; what is found is listed under that
/// number and nothing else of the list changes. Sessions without a process, those of the system
/// and those of processes that are listed already are passed over.
pub proof fn law_playing_processes_are_looked_up(
    listing: SessionModel,
    pid: u32,
    lookup: ProcessLookup,
    index: u32,
)
    requires
        listing.session < u32::MAX,
    ensures
        listing.step == (SessionStep::GetSession { index }) ==> (listing.next(
            SessionEventModel::Session { pid: Some(pid) },
        ) matches Ok(next) && next.processes == listing.processes && if pid != 0
            && !listing.processes.contains_key(pid) {
            next.step == SessionStep::LookUp { pid }
        } else {
            next.step != SessionStep::LookUp { pid }
        }),
        listing.step == (SessionStep::LookUp { pid }) && pid != 0
            && !listing.processes.contains_key(pid) ==> (listing.next(
            SessionEventModel::Found(lookup),
        ) matches Ok(next) && match described_process(pid, lookup) {
            Some(record) => {
                &&& record.pid == pid
                &&& next.processes.contains_key(pid) && next.processes[pid] == record
                &&& forall|other: u32|
                    other != pid ==> (#[trigger] next.processes.contains_key(other)
                        <==> listing.processes.contains_key(other)) && (
                    listing.processes.contains_key(other) ==> next.processes[other]
                        == listing.processes[other])
            },
            None => next.processes == listing.processes,
        }),
        listing.step == (SessionStep::LookUp { pid }) && listing.session + 1 < listing.sessions
            ==> (listing.next(SessionEventModel::Found(lookup)) matches Ok(next) && next.step
            == SessionStep::GetSession { index: (listing.session + 1) as u32 }),
{
}

/// A process goes by the name of its file, which is what stands behind the last separator of its
/// path; one that cannot be read goes by its number, and one that has ended is left out.
pub proof fn law_processes_go_by_their_files(
    pid: u32,
    path: String,
    directory: Seq<char>,
    name: Seq<char>,
    code: u32,
)
    requires
        path@ == directory + name,
        name.len() > 0,
        directory.len() > 0 ==> directory.last() == '\\' || directory.last() == '/',
        forall|i: int| 0 <= i < name.len() ==> #[trigger] name[i] != '\\' && name[i] != '/',
    ensures
        described_process(pid, ProcessLookup::Path(path)) matches Some(record) && record.pid == pid
            && record.name == name && record.executable_path == Some(path@),
        described_process(pid, ProcessLookup::Failed { code }) is None <==> code == 0x8007_0057
            || code == 0x8007_0490 || code == 0x8007_0002,
        described_process(pid, ProcessLookup::Failed { code }) matches Some(record) ==> record.pid
            == pid && record.executable_path is None,
{
    lemma_name_start(path@, directory.len(), path@.len());
    assert(file_name(path@) =~= name);
}

proof fn lemma_name_start(path: Seq<char>, start: nat, n: nat)
    requires
        start <= n <= path.len(),
        start > 0 ==> path[start - 1] == '\\' || path[start - 1] == '/',
        forall|i: int| start <= i < n ==> #[trigger] path[i] != '\\' && path[i] != '/',
    ensures
        name_start(path, n) == start,
    decreases n,
{
    if n > start {
        assert(path[n - 1] != '\\' && path[n - 1] != '/');
        lemma_name_start(path, start, (n - 1) as nat);
    }
}

/// The number that a digit of base 64 stands for.
pub open spec fn base64_value(c: char) -> int {
    if 'A' <= c <= 'Z' {
        c as int - 'A' as int
    } else if 'a' <= c <= 'z' {
        26 + (c as int - 'a' as int)
    } else if '0' <= c <= '9' {
        52 + (c as int - '0' as int)
    } else if c == '+' {
        62
    } else {
        63
    }
}

proof fn lemma_base64_value(digit: int)
    requires
        0 <= digit < 64,
    ensures
        base64_value(base64_char(digit)) == digit,
        base64_char(digit) != '=',
{
}

/// Every three bytes are written as four digits of base 64 that give them back; what is missing
/// of the last three is marked by equals signs.
pub proof fn law_bytes_are_written_in_base_64(bytes: Seq<u8>, group: int)
    requires
        0 <= 3 * group < bytes.len(),
    ensures
        ({
            let text = base64_text(bytes);
            let value = |i: int| base64_value(text[4 * group + i]);
            let left = bytes.len() - 3 * group;
            &&& text.len() == 4 * ((bytes.len() + 2) / 3)
            &&& 4 * group + 4 <= text.len()
            &&& left >= 3 ==> 0x4_0000 * value(0) + 0x1000 * value(1) + 64 * value(2) + value(3)
                == 0x1_0000 * bytes[3 * group] + 0x100 * bytes[3 * group + 1] + bytes[3 * group
                + 2]
            &&& left == 2 ==> text[4 * group + 3] == '=' && 0x1000 * value(0) + 64 * value(1)
                + value(2) == 4 * (0x100 * bytes[3 * group] + bytes[3 * group + 1])
            &&& left == 1 ==> text[4 * group + 3] == '=' && text[4 * group + 2] == '=' && 64
                * value(0) + value(1) == 16 * bytes[3 * group]
        }),
{
    let text = base64_text(bytes);
    let first = 3 * group;
    let a = bytes[first] as int;
    let b = if first + 1 < bytes.len() {
        bytes[first + 1] as int
    } else {
        0
    };
    let c = if first + 2 < bytes.len() {
        bytes[first + 2] as int
    } else {
        0
    };
    assert(4 * group / 4 == group && (4 * group + 1) / 4 == group && (4 * group + 2) / 4 == group
        && (4 * group + 3) / 4 == group);
    assert(text[4 * group] == base64_at(bytes, 4 * group));
    assert(text[4 * group + 1] == base64_at(bytes, 4 * group + 1));
    assert(text[4 * group + 2] == base64_at(bytes, 4 * group + 2));
    assert(text[4 * group + 3] == base64_at(bytes, 4 * group + 3));
    lemma_base64_value(a / 4);
    lemma_base64_value(a % 4 * 16 + b / 16);
    lemma_base64_value(b % 16 * 4 + c / 64);
    lemma_base64_value(c % 64);
}

/// A device that cannot be opened is told as one that plays where it was to play, and otherwise as
/// one that records, with the endpoint that it is.
pub proof fn law_faults_tell_what_was_to_be_opened(opening: OpeningModel, raw: Seq<u8>)
    requires
        raw.len() >= 18 ==> le_u16(raw, 16) <= 4096,
    ensures
        opening.kind == StreamKind::Render ==> (opening.fault(
            EventModel::State { active: false },
        ) matches Some(WindowsFault::RenderState { endpoint_id, .. }) && endpoint_id
            == opening.endpoint),
        opening.kind != StreamKind::Render ==> (opening.fault(
            EventModel::State { active: false },
        ) matches Some(WindowsFault::CaptureState { endpoint_id, .. }) && endpoint_id
            == opening.endpoint),
        decoded_format(raw) matches Ok(format) ==> {
            let told = opening.fault(EventModel::MixFormat { raw: Some(raw) });
            &&& opening.kind == StreamKind::Render && !format.renders() ==> told == Some(
                WindowsFault::RenderFormatUnsupported {
                    endpoint_id: opening.endpoint,
                    sample_rate: format.sample_rate,
                    bits_per_sample: format.bits_per_sample,
                    channels: format.channels,
                },
            )
            &&& opening.kind != StreamKind::Render && !format.renders() ==> told == Some(
                WindowsFault::CaptureFormatUnsupported {
                    endpoint_id: opening.endpoint,
                    sample_rate: format.sample_rate,
                    bits_per_sample: format.bits_per_sample,
                    channels: format.channels,
                },
            )
        },
{
}

} // verus!
