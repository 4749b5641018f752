//! Events of the libmpv client API (`mpv_event_id`): which event a raw
//! `mpv_event` is, which identifier an event is reported under, and the
//! token that grants the right to wait for events on a handle.

use vstd::prelude::*;
use crate::error::{Error, ERROR_SUCCESS, check, outcome_of_code};

verus! {

/// `MPV_EVENT_NONE`: nothing happened (timeout or wakeup).
pub const EVENT_NONE: u32 = 0;
/// `MPV_EVENT_SHUTDOWN`: the player quits.
pub const EVENT_SHUTDOWN: u32 = 1;
/// `MPV_EVENT_LOG_MESSAGE`: a log message.
pub const EVENT_LOG_MESSAGE: u32 = 2;
/// `MPV_EVENT_GET_PROPERTY_REPLY`: reply to an asynchronous property read.
pub const EVENT_GET_PROPERTY_REPLY: u32 = 3;
/// `MPV_EVENT_SET_PROPERTY_REPLY`: reply to an asynchronous property write.
pub const EVENT_SET_PROPERTY_REPLY: u32 = 4;
/// `MPV_EVENT_COMMAND_REPLY`: reply to an asynchronous command.
pub const EVENT_COMMAND_REPLY: u32 = 5;
/// `MPV_EVENT_START_FILE`: a file is about to be loaded.
pub const EVENT_START_FILE: u32 = 6;
/// `MPV_EVENT_END_FILE`: a file was unloaded.
pub const EVENT_END_FILE: u32 = 7;
/// `MPV_EVENT_FILE_LOADED`: a file was loaded and decoding starts.
pub const EVENT_FILE_LOADED: u32 = 8;
/// `MPV_EVENT_CLIENT_MESSAGE`: a `script-message` for this client.
pub const EVENT_CLIENT_MESSAGE: u32 = 16;
/// `MPV_EVENT_VIDEO_RECONFIG`: the video output was reconfigured.
pub const EVENT_VIDEO_RECONFIG: u32 = 17;
/// `MPV_EVENT_AUDIO_RECONFIG`: the audio output was reconfigured.
pub const EVENT_AUDIO_RECONFIG: u32 = 18;
/// `MPV_EVENT_SEEK`: a seek was initiated.
pub const EVENT_SEEK: u32 = 20;
/// `MPV_EVENT_PLAYBACK_RESTART`: playback was reinitialized.
pub const EVENT_PLAYBACK_RESTART: u32 = 21;
/// `MPV_EVENT_PROPERTY_CHANGE`: an observed property changed.
pub const EVENT_PROPERTY_CHANGE: u32 = 22;
/// `MPV_EVENT_QUEUE_OVERFLOW`: the event queue overflowed.
pub const EVENT_QUEUE_OVERFLOW: u32 = 24;
/// `MPV_EVENT_HOOK`: a registered hook was invoked.
pub const EVENT_HOOK: u32 = 25;

/// The fields of an `mpv_event` that decide which event it is.
#[derive(Debug, Clone, Copy, PartialEq, Eq)]
pub struct RawEvent {
    /// The `event_id` field.
    pub event_id: u32,
    /// The `error` field (an `mpv_error` code).
    pub error: i32,
    /// The `reply_userdata` field.
    pub reply_userdata: u64,
    /// Whether the `data` field points to something.
    pub has_data: bool,
}

/// Which event happened, with the plain values that come with it; the data
/// that stays in mpv's memory (property, log message, file, message, hook)
/// is read by the caller according to the kind.
#[derive(Debug, Clone, Copy, PartialEq, Eq)]
pub enum EventKind {
    /// Nothing happened; also what an unrecognized event becomes.
    Nothing,
    Shutdown,
    LogMessage,
    /// The outcome, the reply identifier, and whether a property came along.
    GetPropertyReply(Result<(), Error>, u64, bool),
    /// The outcome and the reply identifier.
    SetPropertyReply(Result<(), Error>, u64),
    /// The outcome and the reply identifier.
    CommandReply(Result<(), Error>, u64),
    StartFile,
    EndFile,
    FileLoaded,
    ClientMessage,
    VideoReconfig,
    AudioReconfig,
    Seek,
    PlaybackRestart,
    /// The identifier under which the property is observed.
    PropertyChange(u64),
    QueueOverflow,
    /// The reply identifier given when the hook was added.
    Hook(u64),
}

/// The events whose kind carries data that must be present.
pub open spec fn event_needs_data(event_id: u32) -> bool {
    event_id == EVENT_LOG_MESSAGE || event_id == EVENT_START_FILE || event_id == EVENT_END_FILE
        || event_id == EVENT_CLIENT_MESSAGE || event_id == EVENT_PROPERTY_CHANGE || event_id
        == EVENT_HOOK
}

/// The identifiers that have an event kind of their own.
pub open spec fn is_handled_event_id(event_id: u32) -> bool {
    event_id == EVENT_SHUTDOWN || event_id == EVENT_LOG_MESSAGE || event_id
        == EVENT_GET_PROPERTY_REPLY || event_id == EVENT_SET_PROPERTY_REPLY || event_id
        == EVENT_COMMAND_REPLY || event_id == EVENT_START_FILE || event_id == EVENT_END_FILE
        || event_id == EVENT_FILE_LOADED || event_id == EVENT_CLIENT_MESSAGE || event_id
        == EVENT_VIDEO_RECONFIG || event_id == EVENT_AUDIO_RECONFIG || event_id == EVENT_SEEK
        || event_id == EVENT_PLAYBACK_RESTART || event_id == EVENT_PROPERTY_CHANGE || event_id
        == EVENT_QUEUE_OVERFLOW || event_id == EVENT_HOOK
}

/// Whether `kind` is the event that the raw event `raw` describes (`None`
/// stands for a null event pointer).
pub open spec fn is_kind_of(raw: Option<RawEvent>, kind: EventKind) -> bool {
    match raw {
        None => kind == EventKind::Nothing,
        Some(e) => {
            let id = e.event_id;
            if id == EVENT_SHUTDOWN {
                kind == EventKind::Shutdown
            } else if id == EVENT_LOG_MESSAGE {
                kind == EventKind::LogMessage
            } else if id == EVENT_GET_PROPERTY_REPLY {
                kind matches EventKind::GetPropertyReply(r, reply, has_property) && outcome_of_code(
                    e.error,
                    r,
                ) && reply == e.reply_userdata && has_property == e.has_data
            } else if id == EVENT_SET_PROPERTY_REPLY {
                kind matches EventKind::SetPropertyReply(r, reply) && outcome_of_code(e.error, r)
                    && reply == e.reply_userdata
            } else if id == EVENT_COMMAND_REPLY {
                kind matches EventKind::CommandReply(r, reply) && outcome_of_code(e.error, r)
                    && reply == e.reply_userdata
            } else if id == EVENT_START_FILE {
                kind == EventKind::StartFile
            } else if id == EVENT_END_FILE {
                kind == EventKind::EndFile
            } else if id == EVENT_FILE_LOADED {
                kind == EventKind::FileLoaded
            } else if id == EVENT_CLIENT_MESSAGE {
                kind == EventKind::ClientMessage
            } else if id == EVENT_VIDEO_RECONFIG {
                kind == EventKind::VideoReconfig
            } else if id == EVENT_AUDIO_RECONFIG {
                kind == EventKind::AudioReconfig
            } else if id == EVENT_SEEK {
                kind == EventKind::Seek
            } else if id == EVENT_PLAYBACK_RESTART {
                kind == EventKind::PlaybackRestart
            } else if id == EVENT_PROPERTY_CHANGE {
                kind == EventKind::PropertyChange(e.reply_userdata)
            } else if id == EVENT_QUEUE_OVERFLOW {
                kind == EventKind::QueueOverflow
            } else if id == EVENT_HOOK {
                kind == EventKind::Hook(e.reply_userdata)
            } else {
                kind == EventKind::Nothing
            }
        },
    }
}

/// The identifier under which an event kind is reported.
pub open spec fn event_id_of(kind: EventKind) -> u32 {
    match kind {
        EventKind::Nothing => EVENT_NONE,
        EventKind::Shutdown => EVENT_SHUTDOWN,
        EventKind::LogMessage => EVENT_LOG_MESSAGE,
        EventKind::GetPropertyReply(..) => EVENT_GET_PROPERTY_REPLY,
        EventKind::SetPropertyReply(..) => EVENT_SET_PROPERTY_REPLY,
        EventKind::CommandReply(..) => EVENT_COMMAND_REPLY,
        EventKind::StartFile => EVENT_START_FILE,
        EventKind::EndFile => EVENT_END_FILE,
        EventKind::FileLoaded => EVENT_FILE_LOADED,
        EventKind::ClientMessage => EVENT_CLIENT_MESSAGE,
        EventKind::VideoReconfig => EVENT_VIDEO_RECONFIG,
        EventKind::AudioReconfig => EVENT_AUDIO_RECONFIG,
        EventKind::Seek => EVENT_SEEK,
        EventKind::PlaybackRestart => EVENT_PLAYBACK_RESTART,
        EventKind::PropertyChange(..) => EVENT_PROPERTY_CHANGE,
        EventKind::QueueOverflow => EVENT_QUEUE_OVERFLOW,
        EventKind::Hook(..) => EVENT_HOOK,
    }
}

impl EventKind {
    /// The kind of the raw event `raw` (`None` for a null event pointer).
    /// An event whose kind carries data must come with data.
    pub fn from_raw(raw: Option<RawEvent>) -> (kind: EventKind)
        requires
            raw matches Some(e) ==> (event_needs_data(e.event_id) ==> e.has_data),
        ensures
            is_kind_of(raw, kind),
            raw matches Some(e) ==> (kind matches EventKind::GetPropertyReply(r, reply, has) ==> (
            r is Ok <==> e.error == ERROR_SUCCESS) && (r matches Err(x) ==> x@ == e.error) && reply
                == e.reply_userdata && has == e.has_data),
            raw matches Some(e) ==> (kind matches EventKind::SetPropertyReply(r, reply) ==> (r is Ok
                <==> e.error == ERROR_SUCCESS) && (r matches Err(x) ==> x@ == e.error) && reply
                == e.reply_userdata),
            raw matches Some(e) ==> (kind matches EventKind::CommandReply(r, reply) ==> (r is Ok
                <==> e.error == ERROR_SUCCESS) && (r matches Err(x) ==> x@ == e.error) && reply
                == e.reply_userdata),
    {
        match raw {
            None => EventKind::Nothing,
            Some(e) => {
                let id = e.event_id;
                if id == EVENT_SHUTDOWN {
                    EventKind::Shutdown
                } else if id == EVENT_LOG_MESSAGE {
                    EventKind::LogMessage
                } else if id == EVENT_GET_PROPERTY_REPLY {
                    EventKind::GetPropertyReply(check(e.error), e.reply_userdata, e.has_data)
                } else if id == EVENT_SET_PROPERTY_REPLY {
                    EventKind::SetPropertyReply(check(e.error), e.reply_userdata)
                } else if id == EVENT_COMMAND_REPLY {
                    EventKind::CommandReply(check(e.error), e.reply_userdata)
                } else if id == EVENT_START_FILE {
                    EventKind::StartFile
                } else if id == EVENT_END_FILE {
                    EventKind::EndFile
                } else if id == EVENT_FILE_LOADED {
                    EventKind::FileLoaded
                } else if id == EVENT_CLIENT_MESSAGE {
                    EventKind::ClientMessage
                } else if id == EVENT_VIDEO_RECONFIG {
                    EventKind::VideoReconfig
                } else if id == EVENT_AUDIO_RECONFIG {
                    EventKind::AudioReconfig
                } else if id == EVENT_SEEK {
                    EventKind::Seek
                } else if id == EVENT_PLAYBACK_RESTART {
                    EventKind::PlaybackRestart
                } else if id == EVENT_PROPERTY_CHANGE {
                    EventKind::PropertyChange(e.reply_userdata)
                } else if id == EVENT_QUEUE_OVERFLOW {
                    EventKind::QueueOverflow
                } else if id == EVENT_HOOK {
                    EventKind::Hook(e.reply_userdata)
                } else {
                    EventKind::Nothing
                }
            },
        }
    }

    /// The identifier under which this event is reported (and named).
    pub fn event_id(&self) -> (id: u32)
        ensures
            id == event_id_of(*self),
    {
        match self {
            EventKind::Nothing => EVENT_NONE,
            EventKind::Shutdown => EVENT_SHUTDOWN,
            EventKind::LogMessage => EVENT_LOG_MESSAGE,
            EventKind::GetPropertyReply(..) => EVENT_GET_PROPERTY_REPLY,
            EventKind::SetPropertyReply(..) => EVENT_SET_PROPERTY_REPLY,
            EventKind::CommandReply(..) => EVENT_COMMAND_REPLY,
            EventKind::StartFile => EVENT_START_FILE,
            EventKind::EndFile => EVENT_END_FILE,
            EventKind::FileLoaded => EVENT_FILE_LOADED,
            EventKind::ClientMessage => EVENT_CLIENT_MESSAGE,
            EventKind::VideoReconfig => EVENT_VIDEO_RECONFIG,
            EventKind::AudioReconfig => EVENT_AUDIO_RECONFIG,
            EventKind::Seek => EVENT_SEEK,
            EventKind::PlaybackRestart => EVENT_PLAYBACK_RESTART,
            EventKind::PropertyChange(..) => EVENT_PROPERTY_CHANGE,
            EventKind::QueueOverflow => EVENT_QUEUE_OVERFLOW,
            EventKind::Hook(..) => EVENT_HOOK,
        }
    }
}

/// A reply to an asynchronous request (property read, property write,
/// command) is classified as such a reply and carries the outcome that its
/// error code gives: success exactly when the code is
/// `MPV_ERROR_SUCCESS`, otherwise the error with that very code; it also
/// carries the reply identifier it came with.
pub proof fn lemma_reply_outcome(e: RawEvent, kind: EventKind)
    requires
        is_kind_of(Some(e), kind),
    ensures
        e.event_id == EVENT_GET_PROPERTY_REPLY <==> kind is GetPropertyReply,
        e.event_id == EVENT_SET_PROPERTY_REPLY <==> kind is SetPropertyReply,
        e.event_id == EVENT_COMMAND_REPLY <==> kind is CommandReply,
        kind matches EventKind::GetPropertyReply(r, reply, has) ==> (r is Ok <==> e.error
            == ERROR_SUCCESS) && (r matches Err(x) ==> x@ == e.error) && reply == e.reply_userdata
            && has == e.has_data,
        kind matches EventKind::SetPropertyReply(r, reply) ==> (r is Ok <==> e.error
            == ERROR_SUCCESS) && (r matches Err(x) ==> x@ == e.error) && reply == e.reply_userdata,
        kind matches EventKind::CommandReply(r, reply) ==> (r is Ok <==> e.error == ERROR_SUCCESS)
            && (r matches Err(x) ==> x@ == e.error) && reply == e.reply_userdata,
{
}

/// An event is reported under the identifier it was received with when that
/// identifier has an event kind of its own, and as `MPV_EVENT_NONE`
/// otherwise (as is a null event).
pub proof fn lemma_event_id_roundtrip(raw: Option<RawEvent>, kind: EventKind)
    requires
        is_kind_of(raw, kind),
    ensures
        raw matches Some(e) ==> event_id_of(kind) == (if is_handled_event_id(e.event_id) {
            e.event_id
        } else {
            EVENT_NONE
        }),
        raw is None ==> event_id_of(kind) == EVENT_NONE,
{
}

/// The exclusive right to wait for events on the client with a given id.
#[derive(Debug)]
pub struct EventQueueToken(i64);

impl View for EventQueueToken {
    type V = i64;

    closed spec fn view(&self) -> i64 {
        self.0
    }
}

impl EventQueueToken {
    /// The token of the client whose id is `client_id`.
    pub fn new(client_id: i64) -> (t: EventQueueToken)
        ensures
            t@ == client_id,
    {
        EventQueueToken(client_id)
    }

    /// The id of the client this token belongs to.
    pub fn client_id(&self) -> (id: i64)
        ensures
            id == self@,
    {
        self.0
    }

    /// Whether this token belongs to the client whose id is `client_id`.
    pub fn belongs_to(&self, client_id: i64) -> (b: bool)
        ensures
            b == (self@ == client_id),
    {
        self.0 == client_id
    }
}

/// How many arguments of a client message are read: none when the count is
/// zero or the argument array is absent, the count otherwise. A negative
/// count is a malformed message.
pub fn client_message_arg_count(num_args: i32, args_present: bool) -> (n: usize)
    requires
        num_args >= 0,
    ensures
        n == (if num_args == 0 || !args_present {
            0
        } else {
            num_args as int
        }),
{
    if num_args == 0 || !args_present {
        0
    } else {
        num_args as usize
    }
}

} // verus!
