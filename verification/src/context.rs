//! Context assembly: reconstructing an ordered conversation from a room's
//! message history.
//!
//! History arrives newest first. Messages are accumulated in that order and
//! reversed exactly once at the end. Along the way, in-band commands are
//! interpreted: a "model" command proposes a model (first found wins, and
//! only when it validates against the current backends), a "clear" command
//! ends the scan, other recognized commands are dropped, and an
//! unrecognized command keeps its remainder as an ordinary message. A
//! doubled command marker escapes a line as literal text.

use vstd::prelude::*;

use crate::backends::{
    spec_validate_ok, BackendManager, BackendView, ChatContext, ChatContextView, ChatRole, Message,
    MessageView,
};
use crate::role::{RoleDetails, RoleDetailsView};
use crate::text::{
    spec_has_prefix, spec_lower, spec_strip_repeated, spec_tokens, spec_trim,
};

verus! {

/// What one history event carries: text, an image reference, or something
/// this library ignores.
#[derive(Debug)]
pub enum EventBody {
    Text { body: String },
    Image { media: String },
    Other,
}

/// One event of the room's history.
#[derive(Debug)]
pub struct HistEvent {
    pub sender: String,
    pub body: EventBody,
}

pub enum EventBodyView {
    Text { body: Seq<char> },
    Image { media: Seq<char> },
    Other,
}

pub struct HistEventView {
    pub sender: Seq<char>,
    pub body: EventBodyView,
}

impl View for EventBody {
    type V = EventBodyView;

    open spec fn view(&self) -> EventBodyView {
        match self {
            EventBody::Text { body } => EventBodyView::Text { body: body@ },
            EventBody::Image { media } => EventBodyView::Image { media: media@ },
            EventBody::Other => EventBodyView::Other,
        }
    }
}

impl View for HistEvent {
    type V = HistEventView;

    open spec fn view(&self) -> HistEventView {
        HistEventView { sender: self.sender@, body: self.body@ }
    }
}

impl DeepView for HistEvent {
    type V = HistEventView;

    open spec fn deep_view(&self) -> HistEventView {
        self.view()
    }
}

/// Whether a text body is the clear command (anything starting with it
/// counts, as a prefix match).
pub open spec fn spec_is_clear(b: Seq<char>) -> bool {
    spec_has_prefix(b, "!chaz clear"@)
}

/// Whether an event is a clear command.
pub open spec fn spec_is_clear_event(e: HistEventView) -> bool {
    match e.body {
        EventBodyView::Text { body } => spec_is_clear(body),
        _ => false,
    }
}

/// Whether a text body is the model command (a prefix match).
pub open spec fn spec_is_model_cmd(b: Seq<char>) -> bool {
    spec_has_prefix(b, "!chaz model"@)
}

/// The model command's argument: the third whitespace-delimited word.
pub open spec fn spec_model_arg(b: Seq<char>) -> Option<Seq<char>> {
    if spec_tokens(b).len() >= 3 {
        Some(spec_tokens(b)[2])
    } else {
        None
    }
}

/// Whether a word names a reserved bot command, compared without case.
pub open spec fn spec_reserved_word(t: Seq<char>) -> bool {
    ||| spec_lower(t) == spec_lower("help"@)
    ||| spec_lower(t) == spec_lower("party"@)
    ||| spec_lower(t) == spec_lower("send"@)
    ||| spec_lower(t) == spec_lower("list"@)
    ||| spec_lower(t) == spec_lower("rename"@)
    ||| spec_lower(t) == spec_lower("print"@)
    ||| spec_lower(t) == spec_lower("model"@)
    ||| spec_lower(t) == spec_lower("clear"@)
}

/// What remains of a command once the bot's command word is stripped
/// (repeatedly) and the rest trimmed.
pub open spec fn spec_remainder(b: Seq<char>) -> Seq<char> {
    spec_trim(spec_strip_repeated(b, "!chaz"@))
}

/// What a text body contributes to the conversation, if anything: ordinary
/// text is kept verbatim (a doubled marker makes a marked line ordinary), a
/// reserved or foreign command is dropped, and an unrecognized command of
/// the bot keeps its remainder.
pub open spec fn spec_kept_content(b: Seq<char>) -> Option<Seq<char>> {
    if !crate::spec_is_marked('!', b) {
        Some(b)
    } else if !spec_has_prefix(b, "!chaz"@) {
        None
    } else {
        let r = spec_remainder(b);
        if r.len() == 0 {
            None
        } else if spec_tokens(r).len() > 0 && spec_reserved_word(spec_tokens(r)[0]) {
            None
        } else {
            Some(r)
        }
    }
}

/// The message an event contributes: its kept content, spoken by the
/// assistant when the sender is the bot itself and by the user otherwise.
pub open spec fn spec_event_messages(e: HistEventView, bot: Seq<char>) -> Seq<MessageView> {
    match e.body {
        EventBodyView::Text { body } => match spec_kept_content(body) {
            Some(c) => seq![
                MessageView {
                    role: if e.sender == bot {
                        ChatRole::Assistant
                    } else {
                        ChatRole::User
                    },
                    content: c,
                },
            ],
            None => Seq::empty(),
        },
        _ => Seq::empty(),
    }
}

/// The media an event contributes, when media context is enabled.
pub open spec fn spec_event_media(e: HistEventView, media_enabled: bool) -> Seq<Seq<char>> {
    match e.body {
        EventBodyView::Image { media } => if media_enabled {
            seq![media]
        } else {
            Seq::empty()
        },
        _ => Seq::empty(),
    }
}

/// The model an event proposes: the model command's argument, and only when
/// it validates against the current backends.
pub open spec fn spec_event_model(e: HistEventView, bs: Seq<BackendView>) -> Option<Seq<char>> {
    match e.body {
        EventBodyView::Text { body } => if spec_is_model_cmd(body) {
            match spec_model_arg(body) {
                Some(m) => if spec_validate_ok(bs, m) {
                    Some(m)
                } else {
                    None
                },
                None => None,
            }
        } else {
            None
        },
        _ => None,
    }
}

/// The outcome of scanning history newest-first: messages and media still in
/// scan (newest-first) order, the first model proposal found, and whether a
/// clear command ended the scan.
#[verifier::ext_equal]
pub struct ScanView {
    pub messages: Seq<MessageView>,
    pub media: Seq<Seq<char>>,
    pub model: Option<Seq<char>>,
    pub cleared: bool,
}

/// The empty scan outcome.
pub open spec fn spec_scan_empty() -> ScanView {
    ScanView { messages: Seq::empty(), media: Seq::empty(), model: None, cleared: false }
}

/// Scan events newest-first: each event contributes its message and media,
/// the first valid model proposal wins, and a clear command ends the scan,
/// admitting nothing older.
pub open spec fn spec_scan(
    events: Seq<HistEventView>,
    bot: Seq<char>,
    media_enabled: bool,
    bs: Seq<BackendView>,
) -> ScanView
    decreases events.len(),
{
    if events.len() == 0 {
        spec_scan_empty()
    } else {
        let e = events[0];
        if spec_is_clear_event(e) {
            ScanView { messages: Seq::empty(), media: Seq::empty(), model: None, cleared: true }
        } else {
            let rest = spec_scan(events.drop_first(), bot, media_enabled, bs);
            ScanView {
                messages: spec_event_messages(e, bot) + rest.messages,
                media: spec_event_media(e, media_enabled) + rest.media,
                model: match spec_event_model(e, bs) {
                    Some(m) => Some(m),
                    None => rest.model,
                },
                cleared: rest.cleared,
            }
        }
    }
}

/// Extend a scan outcome by scanning further events; an already cleared
/// outcome absorbs nothing more.
pub open spec fn spec_absorb(
    a: ScanView,
    events: Seq<HistEventView>,
    bot: Seq<char>,
    media_enabled: bool,
    bs: Seq<BackendView>,
) -> ScanView {
    if a.cleared {
        a
    } else {
        let s = spec_scan(events, bot, media_enabled, bs);
        ScanView {
            messages: a.messages + s.messages,
            media: a.media + s.media,
            model: match a.model {
                Some(m) => Some(m),
                None => s.model,
            },
            cleared: s.cleared,
        }
    }
}

/// Scanning one more (non-clear) event extends the outcome by that event's
/// contributions; a clear event ends the scan with what was accumulated.
proof fn lemma_scan_take_succ(
    events: Seq<HistEventView>,
    i: int,
    bot: Seq<char>,
    media_enabled: bool,
    bs: Seq<BackendView>,
)
    requires
        0 <= i < events.len(),
        !spec_scan(events.take(i), bot, media_enabled, bs).cleared,
    ensures
        spec_is_clear_event(events[i]) ==> spec_scan(events.take(i + 1), bot, media_enabled, bs)
            == (ScanView {
            messages: spec_scan(events.take(i), bot, media_enabled, bs).messages,
            media: spec_scan(events.take(i), bot, media_enabled, bs).media,
            model: spec_scan(events.take(i), bot, media_enabled, bs).model,
            cleared: true,
        }),
        !spec_is_clear_event(events[i]) ==> spec_scan(events.take(i + 1), bot, media_enabled, bs)
            == (ScanView {
            messages: spec_scan(events.take(i), bot, media_enabled, bs).messages
                + spec_event_messages(events[i], bot),
            media: spec_scan(events.take(i), bot, media_enabled, bs).media + spec_event_media(
                events[i],
                media_enabled,
            ),
            model: (match spec_scan(events.take(i), bot, media_enabled, bs).model {
                Some(m) => Some(m),
                None => spec_event_model(events[i], bs),
            }),
            cleared: false,
        }),
    decreases i,
{
    let pre = spec_scan(events.take(i), bot, media_enabled, bs);
    if i == 0 {
        assert(events.take(0) =~= Seq::<HistEventView>::empty());
        assert(events.take(1)[0] == events[0]);
        assert(events.take(1).drop_first() =~= Seq::<HistEventView>::empty());
        if !spec_is_clear_event(events[0]) {
            assert(spec_scan(events.take(1), bot, media_enabled, bs) =~= (ScanView {
                messages: pre.messages + spec_event_messages(events[0], bot),
                media: pre.media + spec_event_media(events[0], media_enabled),
                model: (match pre.model {
                    Some(m) => Some(m),
                    None => spec_event_model(events[0], bs),
                }),
                cleared: false,
            }));
        }
    } else {
        let t = events.drop_first();
        assert(events.take(i)[0] == events[0]);
        assert(events.take(i + 1)[0] == events[0]);
        assert(events.take(i).drop_first() =~= t.take(i - 1));
        assert(events.take(i + 1).drop_first() =~= t.take(i));
        assert(!spec_is_clear_event(events[0])) by {
            if spec_is_clear_event(events[0]) {
                assert(spec_scan(events.take(i), bot, media_enabled, bs).cleared);
            }
        }
        assert(!spec_scan(t.take(i - 1), bot, media_enabled, bs).cleared);
        lemma_scan_take_succ(t, i - 1, bot, media_enabled, bs);
        assert(t[i - 1] == events[i]);
        let pre_t = spec_scan(t.take(i - 1), bot, media_enabled, bs);
        if spec_is_clear_event(events[i]) {
            assert(spec_scan(events.take(i + 1), bot, media_enabled, bs) =~= (ScanView {
                messages: pre.messages,
                media: pre.media,
                model: pre.model,
                cleared: true,
            }));
        } else {
            assert(spec_scan(events.take(i + 1), bot, media_enabled, bs) =~= (ScanView {
                messages: pre.messages + spec_event_messages(events[i], bot),
                media: pre.media + spec_event_media(events[i], media_enabled),
                model: (match pre.model {
                    Some(m) => Some(m),
                    None => spec_event_model(events[i], bs),
                }),
                cleared: false,
            }));
        }
    }
}

/// A scan that found a clear command at position `i` ends there: the whole
/// history scans to exactly what the events before the clear yield.
pub proof fn lemma_scan_clear_cut(
    events: Seq<HistEventView>,
    i: int,
    bot: Seq<char>,
    media_enabled: bool,
    bs: Seq<BackendView>,
)
    requires
        0 <= i < events.len(),
        spec_is_clear_event(events[i]),
        forall|j: int| 0 <= j < i ==> !spec_is_clear_event(events[j]),
    ensures
        spec_scan(events, bot, media_enabled, bs) == (ScanView {
            messages: spec_scan(events.take(i), bot, media_enabled, bs).messages,
            media: spec_scan(events.take(i), bot, media_enabled, bs).media,
            model: spec_scan(events.take(i), bot, media_enabled, bs).model,
            cleared: true,
        }),
    decreases i,
{
    if i == 0 {
        assert(events.take(0) =~= Seq::<HistEventView>::empty());
        assert(spec_scan(events, bot, media_enabled, bs) =~= (ScanView {
            messages: spec_scan(events.take(0), bot, media_enabled, bs).messages,
            media: spec_scan(events.take(0), bot, media_enabled, bs).media,
            model: spec_scan(events.take(0), bot, media_enabled, bs).model,
            cleared: true,
        }));
    } else {
        let t = events.drop_first();
        assert(t[i - 1] == events[i]);
        assert(forall|j: int| 0 <= j < i - 1 ==> t[j] == events[j + 1]);
        lemma_scan_clear_cut(t, i - 1, bot, media_enabled, bs);
        assert(events.take(i)[0] == events[0]);
        assert(events.take(i).drop_first() =~= t.take(i - 1));
        assert(spec_scan(events, bot, media_enabled, bs) =~= (ScanView {
            messages: spec_scan(events.take(i), bot, media_enabled, bs).messages,
            media: spec_scan(events.take(i), bot, media_enabled, bs).media,
            model: spec_scan(events.take(i), bot, media_enabled, bs).model,
            cleared: true,
        }));
    }
}

/// A scan is marked cleared exactly when some event is a clear command.
pub proof fn lemma_scan_cleared_iff(
    events: Seq<HistEventView>,
    bot: Seq<char>,
    media_enabled: bool,
    bs: Seq<BackendView>,
)
    ensures
        spec_scan(events, bot, media_enabled, bs).cleared <==> exists|i: int|
            0 <= i < events.len() && spec_is_clear_event(#[trigger] events[i]),
    decreases events.len(),
{
    if events.len() == 0 {
    } else if spec_is_clear_event(events[0]) {
    } else {
        lemma_scan_cleared_iff(events.drop_first(), bot, media_enabled, bs);
        let t = events.drop_first();
        if spec_scan(events, bot, media_enabled, bs).cleared {
            let i = choose|i: int| 0 <= i < t.len() && spec_is_clear_event(#[trigger] t[i]);
            assert(events[i + 1] == t[i]);
        } else {
            assert forall|i: int|
                0 <= i < events.len() implies !spec_is_clear_event(#[trigger] events[i]) by {
                if i > 0 {
                    assert(t[i - 1] == events[i]);
                }
            }
        }
    }
}

/// A scan that ended in a clear admits nothing from later events.
proof fn lemma_scan_cleared_absorbs_nothing(
    e1: Seq<HistEventView>,
    e2: Seq<HistEventView>,
    bot: Seq<char>,
    media_enabled: bool,
    bs: Seq<BackendView>,
)
    requires
        spec_scan(e1, bot, media_enabled, bs).cleared,
    ensures
        spec_scan(e1 + e2, bot, media_enabled, bs) == spec_scan(e1, bot, media_enabled, bs),
    decreases e1.len(),
{
    assert(e1.len() > 0);
    let h = e1[0];
    assert((e1 + e2)[0] == h);
    if spec_is_clear_event(h) {
        assert(spec_scan(e1 + e2, bot, media_enabled, bs) =~= spec_scan(
            e1,
            bot,
            media_enabled,
            bs,
        ));
    } else {
        let t1 = e1.drop_first();
        assert((e1 + e2).drop_first() =~= t1 + e2);
        lemma_scan_cleared_absorbs_nothing(t1, e2, bot, media_enabled, bs);
        assert(spec_scan(e1 + e2, bot, media_enabled, bs) =~= spec_scan(
            e1,
            bot,
            media_enabled,
            bs,
        ));
    }
}

/// Scanning a concatenation is scanning the first part and absorbing the
/// second.
proof fn lemma_scan_concat(
    e1: Seq<HistEventView>,
    e2: Seq<HistEventView>,
    bot: Seq<char>,
    media_enabled: bool,
    bs: Seq<BackendView>,
)
    ensures
        spec_scan(e1 + e2, bot, media_enabled, bs) == spec_absorb(
            spec_scan(e1, bot, media_enabled, bs),
            e2,
            bot,
            media_enabled,
            bs,
        ),
    decreases e1.len(),
{
    let s1 = spec_scan(e1, bot, media_enabled, bs);
    let s2 = spec_scan(e2, bot, media_enabled, bs);
    if e1.len() == 0 {
        assert(e1 + e2 =~= e2);
        assert(spec_absorb(s1, e2, bot, media_enabled, bs) =~= s2);
    } else if s1.cleared {
        lemma_scan_cleared_absorbs_nothing(e1, e2, bot, media_enabled, bs);
    } else {
        let h = e1[0];
        assert((e1 + e2)[0] == h);
        assert(!spec_is_clear_event(h)) by {
            if spec_is_clear_event(h) {
                assert(s1.cleared);
            }
        }
        let t1 = e1.drop_first();
        assert((e1 + e2).drop_first() =~= t1 + e2);
        lemma_scan_concat(t1, e2, bot, media_enabled, bs);
        assert(spec_scan(e1 + e2, bot, media_enabled, bs) =~= spec_absorb(
            s1,
            e2,
            bot,
            media_enabled,
            bs,
        ));
    }
}

/// Law: absorbing history page by page comes to the same as scanning the
/// concatenated history at once; the paginated accumulator loses nothing.
pub proof fn lemma_absorb_composes(
    a: ScanView,
    e1: Seq<HistEventView>,
    e2: Seq<HistEventView>,
    bot: Seq<char>,
    media_enabled: bool,
    bs: Seq<BackendView>,
)
    ensures
        spec_absorb(spec_absorb(a, e1, bot, media_enabled, bs), e2, bot, media_enabled, bs)
            == spec_absorb(a, e1 + e2, bot, media_enabled, bs),
{
    lemma_scan_concat(e1, e2, bot, media_enabled, bs);
    let s1 = spec_scan(e1, bot, media_enabled, bs);
    if a.cleared {
    } else if s1.cleared {
        assert(spec_absorb(
            spec_absorb(a, e1, bot, media_enabled, bs),
            e2,
            bot,
            media_enabled,
            bs,
        ) =~= spec_absorb(a, e1 + e2, bot, media_enabled, bs));
    } else {
        assert(spec_absorb(
            spec_absorb(a, e1, bot, media_enabled, bs),
            e2,
            bot,
            media_enabled,
            bs,
        ) =~= spec_absorb(a, e1 + e2, bot, media_enabled, bs));
    }
}

/// The finished context: messages and media reversed into chronological
/// order, the resolved role attached, and the tag store's model override
/// taking precedence over anything found in history.
pub open spec fn spec_finish(
    a: ScanView,
    role: Option<RoleDetailsView>,
    tag_model: Option<Seq<char>>,
) -> ChatContextView {
    ChatContextView {
        messages: a.messages.reverse(),
        media: a.media.reverse(),
        model: match tag_model {
            Some(m) => Some(m),
            None => a.model,
        },
        role: role,
    }
}

/// The context a whole history assembles to.
pub open spec fn spec_assemble(
    events: Seq<HistEventView>,
    bot: Seq<char>,
    media_enabled: bool,
    bs: Seq<BackendView>,
    role: Option<RoleDetailsView>,
    tag_model: Option<Seq<char>>,
) -> ChatContextView {
    spec_finish(spec_scan(events, bot, media_enabled, bs), role, tag_model)
}

/// The text of a text event.
pub open spec fn spec_text_of(e: HistEventView) -> Seq<char> {
    e.body->Text_body
}

/// A doubled command marker escapes a line as literal text: the line is
/// kept verbatim as an ordinary message, proposes no model, and does not
/// clear the scan.
pub proof fn lemma_doubled_marker_literal(e: HistEventView, bot: Seq<char>, bs: Seq<BackendView>)
    requires
        e.body is Text,
        spec_text_of(e).len() >= 2,
        spec_text_of(e)[0] == '!',
        spec_text_of(e)[1] == '!',
    ensures
        spec_kept_content(spec_text_of(e)) == Some(spec_text_of(e)),
        spec_event_messages(e, bot) == seq![
            MessageView {
                role: if e.sender == bot {
                    ChatRole::Assistant
                } else {
                    ChatRole::User
                },
                content: spec_text_of(e),
            },
        ],
        spec_event_model(e, bs) is None,
        !spec_is_clear_event(e),
{
    let b = spec_text_of(e);
    assert(!crate::spec_is_marked('!', b));
    reveal_strlit("!chaz model");
    assert(!spec_is_model_cmd(b)) by {
        if spec_is_model_cmd(b) {
            assert(b.subrange(0, "!chaz model"@.len() as int) == "!chaz model"@);
            assert(b[1] == "!chaz model"@[1]);
        }
    }
    reveal_strlit("!chaz clear");
    assert(!spec_is_clear(b)) by {
        if spec_is_clear(b) {
            assert(b.subrange(0, "!chaz clear"@.len() as int) == "!chaz clear"@);
            assert(b[1] == "!chaz clear"@[1]);
        }
    }
}

/// The text events of a history, in order.
pub open spec fn spec_text_events(events: Seq<HistEventView>) -> Seq<HistEventView>
    decreases events.len(),
{
    if events.len() == 0 {
        Seq::empty()
    } else if events[0].body is Text {
        seq![events[0]] + spec_text_events(events.drop_first())
    } else {
        spec_text_events(events.drop_first())
    }
}

/// A history whose text messages are all plain scans to exactly those text
/// messages, in scan order, with no model proposal and no clear.
proof fn lemma_scan_plain(
    events: Seq<HistEventView>,
    bot: Seq<char>,
    media_enabled: bool,
    bs: Seq<BackendView>,
)
    requires
        forall|i: int|
            0 <= i < events.len() && (#[trigger] events[i]).body is Text
                ==> !crate::spec_is_marked('!', spec_text_of(events[i])),
    ensures
        ({
            let s = spec_scan(events, bot, media_enabled, bs);
            let texts = spec_text_events(events);
            &&& s.messages.len() == texts.len()
            &&& forall|i: int|
                0 <= i < texts.len() ==> (#[trigger] s.messages[i]) == MessageView {
                    role: if texts[i].sender == bot {
                        ChatRole::Assistant
                    } else {
                        ChatRole::User
                    },
                    content: spec_text_of(texts[i]),
                }
            &&& s.model is None
            &&& !s.cleared
        }),
    decreases events.len(),
{
    if events.len() == 0 {
    } else {
        let e = events[0];
        let t = events.drop_first();
        assert(forall|i: int| 0 <= i < t.len() ==> (#[trigger] t[i]) == events[i + 1]);
        lemma_scan_plain(t, bot, media_enabled, bs);
        let s = spec_scan(events, bot, media_enabled, bs);
        let st = spec_scan(t, bot, media_enabled, bs);
        let texts = spec_text_events(events);
        let textst = spec_text_events(t);
        if e.body is Text {
            let b = spec_text_of(e);
            assert(!crate::spec_is_marked('!', b));
            reveal_strlit("!chaz model");
            assert(!spec_is_model_cmd(b)) by {
                if spec_is_model_cmd(b) {
                    assert(b.subrange(0, "!chaz model"@.len() as int) == "!chaz model"@);
                    assert(b[0] == "!chaz model"@[0]);
                    assert(b[1] == "!chaz model"@[1]);
                    assert(crate::spec_is_marked('!', b));
                }
            }
            reveal_strlit("!chaz clear");
            assert(!spec_is_clear(b)) by {
                if spec_is_clear(b) {
                    assert(b.subrange(0, "!chaz clear"@.len() as int) == "!chaz clear"@);
                    assert(b[0] == "!chaz clear"@[0]);
                    assert(b[1] == "!chaz clear"@[1]);
                    assert(crate::spec_is_marked('!', b));
                }
            }
            assert(s.messages =~= seq![
                MessageView {
                    role: if e.sender == bot {
                        ChatRole::Assistant
                    } else {
                        ChatRole::User
                    },
                    content: b,
                },
            ] + st.messages);
            assert(texts =~= seq![e] + textst);
            assert forall|i: int| 0 <= i < texts.len() implies (#[trigger] s.messages[i])
                == (MessageView {
                role: if texts[i].sender == bot {
                    ChatRole::Assistant
                } else {
                    ChatRole::User
                },
                content: spec_text_of(texts[i]),
            }) by {
                if i > 0 {
                    assert(s.messages[i] == st.messages[i - 1]);
                    assert(texts[i] == textst[i - 1]);
                }
            }
        } else {
            assert(!spec_is_clear_event(e));
            assert(spec_event_messages(e, bot) =~= Seq::<MessageView>::empty());
            assert(s.messages =~= st.messages);
            assert(texts =~= textst);
        }
    }
}

/// Law: a history whose N text messages are all plain (none carrying the
/// command marker, so none a clear) assembles to exactly those N messages
/// in chronological, oldest-first order, each verbatim, spoken by the
/// assistant exactly when the bot sent it.
pub proof fn lemma_assemble_plain_history(
    events: Seq<HistEventView>,
    bot: Seq<char>,
    media_enabled: bool,
    bs: Seq<BackendView>,
    role: Option<RoleDetailsView>,
    tag_model: Option<Seq<char>>,
)
    requires
        forall|i: int|
            0 <= i < events.len() && (#[trigger] events[i]).body is Text
                ==> !crate::spec_is_marked('!', spec_text_of(events[i])),
    ensures
        ({
            let ctx = spec_assemble(events, bot, media_enabled, bs, role, tag_model);
            let texts = spec_text_events(events);
            &&& ctx.messages.len() == texts.len()
            &&& forall|i: int|
                0 <= i < texts.len() ==> (#[trigger] ctx.messages[i]) == MessageView {
                    role: if texts[texts.len() - 1 - i].sender == bot {
                        ChatRole::Assistant
                    } else {
                        ChatRole::User
                    },
                    content: spec_text_of(texts[texts.len() - 1 - i]),
                }
        }),
{
    lemma_scan_plain(events, bot, media_enabled, bs);
    let s = spec_scan(events, bot, media_enabled, bs);
    let ctx = spec_assemble(events, bot, media_enabled, bs, role, tag_model);
    let texts = spec_text_events(events);
    assert(ctx.messages == s.messages.reverse());
    assert forall|i: int| 0 <= i < texts.len() implies (#[trigger] ctx.messages[i])
        == (MessageView {
        role: if texts[texts.len() - 1 - i].sender == bot {
            ChatRole::Assistant
        } else {
            ChatRole::User
        },
        content: spec_text_of(texts[texts.len() - 1 - i]),
    }) by {
        assert(ctx.messages[i] == s.messages[s.messages.len() - 1 - i]);
    }
}

/// Law: a clear command at position k of the newest-first history yields
/// exactly the context of the k strictly newer events: messages after the
/// clear are included, nothing at or before it is.
pub proof fn lemma_assemble_clear_cut(
    events: Seq<HistEventView>,
    k: int,
    bot: Seq<char>,
    media_enabled: bool,
    bs: Seq<BackendView>,
    role: Option<RoleDetailsView>,
    tag_model: Option<Seq<char>>,
)
    requires
        0 <= k < events.len(),
        spec_is_clear_event(events[k]),
        forall|j: int| 0 <= j < k ==> !spec_is_clear_event(#[trigger] events[j]),
    ensures
        spec_assemble(events, bot, media_enabled, bs, role, tag_model) == spec_assemble(
            events.take(k),
            bot,
            media_enabled,
            bs,
            role,
            tag_model,
        ),
{
    lemma_scan_clear_cut(events, k, bot, media_enabled, bs);
}

/// Whether a word names a reserved bot command.
fn is_reserved_word(t: &str) -> (r: bool)
    ensures
        r == spec_reserved_word(t@),
{
    ||| crate::text::eq_ignore_case(t, "help")
    ||| crate::text::eq_ignore_case(t, "party")
    ||| crate::text::eq_ignore_case(t, "send")
    ||| crate::text::eq_ignore_case(t, "list")
    ||| crate::text::eq_ignore_case(t, "rename")
    ||| crate::text::eq_ignore_case(t, "print")
    ||| crate::text::eq_ignore_case(t, "model")
    ||| crate::text::eq_ignore_case(t, "clear")
}

/// The state of an in-progress scan of a room's history, newest first.
pub struct ContextAccum {
    /// Messages accumulated so far, newest first
    pub messages: Vec<Message>,
    /// Media references accumulated so far, newest first
    pub media: Vec<String>,
    /// The first valid model proposal found so far
    pub model: Option<String>,
    /// Whether a clear command ended the scan
    pub done: bool,
}

impl View for ContextAccum {
    type V = ScanView;

    open spec fn view(&self) -> ScanView {
        ScanView {
            messages: self.messages.deep_view(),
            media: self.media.deep_view(),
            model: self.model.deep_view(),
            cleared: self.done,
        }
    }
}

impl ContextAccum {
    /// An empty scan, ready to absorb history.
    pub fn new() -> (r: Self)
        ensures
            r@ == spec_scan_empty(),
    {
        let r = ContextAccum { messages: Vec::new(), media: Vec::new(), model: None, done: false };
        proof {
            assert(r@ =~= spec_scan_empty());
        }
        r
    }

    /// Whether a clear command has ended the scan; nothing older than it may
    /// be absorbed.
    pub fn is_done(&self) -> (r: bool)
        ensures
            r == self@.cleared,
    {
        self.done
    }

    /// Absorb one batch of history events, given newest first.
    ///
    /// Each event contributes its message and media, the first valid model
    /// proposal wins, and a clear command ends the whole scan.
    pub fn scan_batch(
        &mut self,
        batch: &Vec<HistEvent>,
        bot_id: &str,
        media_enabled: bool,
        manager: &BackendManager,
    )
        ensures
            final(self)@ == spec_absorb(
                old(self)@,
                batch.deep_view(),
                bot_id@,
                media_enabled,
                manager@,
            ),
    {
        if self.done {
            return;
        }
        let ghost events = batch.deep_view();
        let ghost a0 = self@;
        let ghost bot = bot_id@;
        let ghost bs = manager@;
        let n = batch.len();
        let mut i: usize = 0;
        proof {
            assert(events.take(0) =~= Seq::<HistEventView>::empty());
            assert(self@ =~= spec_absorb(a0, events.take(0), bot, media_enabled, bs));
        }
        while i < n
            invariant
                i <= n,
                n == batch.len(),
                events == batch.deep_view(),
                bot == bot_id@,
                bs == manager@,
                a0 == old(self)@,
                !a0.cleared,
                !spec_scan(events.take(i as int), bot, media_enabled, bs).cleared,
                self.done == false,
                self@ == spec_absorb(a0, events.take(i as int), bot, media_enabled, bs),
            decreases n - i,
        {
            let ghost pre = spec_scan(events.take(i as int), bot, media_enabled, bs);
            proof {
                assert(events[i as int] == batch[i as int]@);
                lemma_scan_take_succ(events, i as int, bot, media_enabled, bs);
            }
            match &batch[i].body {
                EventBody::Image { media } => {
                    if media_enabled {
                        let ghost dv = self.media.deep_view();
                        self.media.push(media.clone());
                        proof {
                            assert(self.media.deep_view() =~= dv.push(media@));
                            assert(self.media.deep_view() =~= a0.media + (pre.media
                                + spec_event_media(events[i as int], media_enabled)));
                        }
                    } else {
                        proof {
                            assert(self.media.deep_view() =~= a0.media + (pre.media
                                + spec_event_media(events[i as int], media_enabled)));
                        }
                    }
                    proof {
                        assert(self@ =~= spec_absorb(
                            a0,
                            events.take(i + 1),
                            bot,
                            media_enabled,
                            bs,
                        ));
                    }
                },
                EventBody::Other => {
                    proof {
                        assert(self.messages.deep_view() =~= a0.messages + (pre.messages
                            + spec_event_messages(events[i as int], bot)));
                        assert(self.media.deep_view() =~= a0.media + (pre.media + spec_event_media(
                            events[i as int],
                            media_enabled,
                        )));
                        assert(self@ =~= spec_absorb(
                            a0,
                            events.take(i + 1),
                            bot,
                            media_enabled,
                            bs,
                        ));
                    }
                },
                EventBody::Text { body } => {
                    if crate::is_marked_command('!', body.as_str()) {
                        if crate::text::has_prefix(body.as_str(), "!chaz clear") {
                            self.done = true;
                            proof {
                                lemma_scan_cleared_iff(
                                    events.take(i as int),
                                    bot,
                                    media_enabled,
                                    bs,
                                );
                                assert(forall|j: int|
                                    0 <= j < i ==> events.take(i as int)[j] == events[j]);
                                lemma_scan_clear_cut(events, i as int, bot, media_enabled, bs);
                                assert(self@ =~= spec_absorb(
                                    a0,
                                    events,
                                    bot,
                                    media_enabled,
                                    bs,
                                ));
                            }
                            return;
                        }
                        if crate::text::has_prefix(body.as_str(), "!chaz model")
                            && self.model.is_none() {
                            if let Some(arg) = crate::text::nth_token(body.as_str(), 2) {
                                let valid = manager.validate_model(arg.as_str()).is_ok();
                                proof {
                                    if valid {
                                        assert(spec_event_model(events[i as int], bs) == Some(
                                            arg@,
                                        ));
                                    } else {
                                        assert(spec_event_model(events[i as int], bs) is None);
                                    }
                                }
                                if valid {
                                    self.model = Some(arg);
                                }
                            } else {
                                proof {
                                    assert(spec_event_model(events[i as int], bs) is None);
                                }
                            }
                        } else {
                            proof {
                                assert(self.model.deep_view() == (match a0.model {
                                    Some(m) => Some(m),
                                    None => match pre.model {
                                        Some(m) => Some(m),
                                        None => spec_event_model(events[i as int], bs),
                                    },
                                }));
                            }
                        }
                        if crate::text::has_prefix(body.as_str(), "!chaz") {
                            let stripped = crate::text::strip_prefix_repeated(
                                body.as_str(),
                                "!chaz",
                            );
                            let rem = crate::text::trim(stripped.as_str());
                            if rem.as_str().unicode_len() > 0 {
                                let mut dropped: bool = false;
                                if let Some(first) = crate::text::nth_token(rem.as_str(), 0) {
                                    if is_reserved_word(first.as_str()) {
                                        dropped = true;
                                    }
                                }
                                if !dropped {
                                    proof {
                                        assert(spec_kept_content(events[i as int].body->Text_body)
                                            == Some(rem@));
                                    }
                                    let role = if crate::text::str_eq(
                                        batch[i].sender.as_str(),
                                        bot_id,
                                    ) {
                                        ChatRole::Assistant
                                    } else {
                                        ChatRole::User
                                    };
                                    let ghost dv = self.messages.deep_view();
                                    self.messages.push(Message::new(role, rem));
                                    proof {
                                        assert(self.messages.deep_view() =~= dv.push(
                                            spec_event_messages(events[i as int], bot)[0],
                                        ));
                                        assert(self.messages.deep_view() =~= a0.messages
                                            + (pre.messages + spec_event_messages(
                                            events[i as int],
                                            bot,
                                        )));
                                    }
                                } else {
                                    proof {
                                        assert(spec_kept_content(events[i as int].body->Text_body)
                                            is None);
                                    }
                                }
                            } else {
                                proof {
                                    assert(spec_kept_content(events[i as int].body->Text_body)
                                        is None);
                                }
                            }
                        } else {
                            proof {
                                assert(spec_kept_content(events[i as int].body->Text_body)
                                    is None);
                            }
                        }
                    } else {
                        proof {
                            assert(spec_kept_content(events[i as int].body->Text_body) == Some(
                                body@,
                            ));
                            reveal_strlit("!chaz model");
                            assert(!spec_is_model_cmd(body@)) by {
                                if spec_is_model_cmd(body@) {
                                    assert(body@.subrange(0, "!chaz model"@.len() as int)
                                        == "!chaz model"@);
                                    assert(body@[0] == "!chaz model"@[0]);
                                    assert(body@[1] == "!chaz model"@[1]);
                                    assert(crate::spec_is_marked('!', body@));
                                }
                            }
                            assert(spec_event_model(events[i as int], bs) is None);
                            reveal_strlit("!chaz clear");
                            assert(!spec_is_clear(body@)) by {
                                if spec_is_clear(body@) {
                                    assert(body@.subrange(0, "!chaz clear"@.len() as int)
                                        == "!chaz clear"@);
                                    assert(body@[0] == "!chaz clear"@[0]);
                                    assert(body@[1] == "!chaz clear"@[1]);
                                    assert(crate::spec_is_marked('!', body@));
                                }
                            }
                            assert(!spec_is_clear_event(events[i as int]));
                        }
                        let role = if crate::text::str_eq(batch[i].sender.as_str(), bot_id) {
                            ChatRole::Assistant
                        } else {
                            ChatRole::User
                        };
                        let ghost dv = self.messages.deep_view();
                        self.messages.push(Message::new(role, body.clone()));
                        proof {
                            assert(self.messages.deep_view() =~= dv.push(
                                spec_event_messages(events[i as int], bot)[0],
                            ));
                            assert(self.messages.deep_view() =~= a0.messages + (pre.messages
                                + spec_event_messages(events[i as int], bot)));
                        }
                    }
                    proof {
                        assert(self.media.deep_view() =~= a0.media + (pre.media + spec_event_media(
                            events[i as int],
                            media_enabled,
                        )));
                        assert(self@ =~= spec_absorb(
                            a0,
                            events.take(i + 1),
                            bot,
                            media_enabled,
                            bs,
                        ));
                    }
                },
            }
            i += 1;
        }
        proof {
            assert(events.take(n as int) =~= events);
        }
    }

    /// Finish the scan: reverse messages and media into chronological order,
    /// attach the resolved role, and let the tag store's model override win
    /// over anything found in history.
    pub fn finish(self, role: Option<RoleDetails>, tag_model: Option<String>) -> (ctx: ChatContext)
        ensures
            ctx@ == spec_finish(self@, role.deep_view(), tag_model.deep_view()),
    {
        let ContextAccum { messages, media, model, done: _ } = self;
        let messages = reverse_messages(messages);
        let media = reverse_strings(media);
        let model: Option<String> = match tag_model {
            Some(m) => Some(m),
            None => model,
        };
        let ctx = ChatContext { messages, model, media, role };
        proof {
            assert(ctx@ =~= spec_finish(self@, role.deep_view(), tag_model.deep_view()));
        }
        ctx
    }
}

/// Reverse a message list.
fn reverse_messages(v: Vec<Message>) -> (r: Vec<Message>)
    ensures
        r.deep_view() == v.deep_view().reverse(),
{
    let n = v.len();
    let mut r: Vec<Message> = Vec::new();
    let mut i: usize = 0;
    while i < n
        invariant
            i <= n,
            n == v.len(),
            r.deep_view().len() == i as int,
            forall|j: int| 0 <= j < i ==> r.deep_view()[j] == v.deep_view()[n - 1 - j],
        decreases n - i,
    {
        let ghost dv = r.deep_view();
        r.push(v[n - 1 - i].clone());
        proof {
            assert(v.deep_view()[n - 1 - i as int] == v[n - 1 - i as int]@);
            assert(r.deep_view() =~= dv.push(v.deep_view()[n - 1 - i as int]));
        }
        i += 1;
    }
    proof {
        assert(r.deep_view() =~= v.deep_view().reverse());
    }
    r
}

/// Reverse a string list.
fn reverse_strings(v: Vec<String>) -> (r: Vec<String>)
    ensures
        r.deep_view() == v.deep_view().reverse(),
{
    let n = v.len();
    let mut r: Vec<String> = Vec::new();
    let mut i: usize = 0;
    while i < n
        invariant
            i <= n,
            n == v.len(),
            r.deep_view().len() == i as int,
            forall|j: int| 0 <= j < i ==> r.deep_view()[j] == v.deep_view()[n - 1 - j],
        decreases n - i,
    {
        let ghost dv = r.deep_view();
        r.push(v[n - 1 - i].clone());
        proof {
            assert(v.deep_view()[n - 1 - i as int] == v[n - 1 - i as int]@);
            assert(r.deep_view() =~= dv.push(v.deep_view()[n - 1 - i as int]));
        }
        i += 1;
    }
    proof {
        assert(r.deep_view() =~= v.deep_view().reverse());
    }
    r
}

/// Assemble a whole history, given newest first, into a finished context.
pub fn assemble(
    events: &Vec<HistEvent>,
    bot_id: &str,
    media_enabled: bool,
    manager: &BackendManager,
    role: Option<RoleDetails>,
    tag_model: Option<String>,
) -> (ctx: ChatContext)
    ensures
        ctx@ == spec_assemble(
            events.deep_view(),
            bot_id@,
            media_enabled,
            manager@,
            role.deep_view(),
            tag_model.deep_view(),
        ),
{
    let mut acc = ContextAccum::new();
    acc.scan_batch(events, bot_id, media_enabled, manager);
    proof {
        let s = spec_scan(events.deep_view(), bot_id@, media_enabled, manager@);
        assert(acc@ =~= s);
    }
    acc.finish(role, tag_model)
}

} // verus!
