use vstd::prelude::*;

use vstd::string::StringExecFns;

use crate::jsonmodel::{
    find_member, i64_of, int_view, member_in, integer_json, integer_of, json_parse, json_stringify_pretty,
    json_view, member_of, opt_view, parsed_json, pretty_of, printable, str_eq, str_of, string_json,
    text_of, Json, JsonView,
};
use crate::scan::{combos_view, Combo};


verus! {

#[verifier::external_type_specification]
#[verifier::external_body]
pub struct ExJsonValue(json::JsonValue);

#[verifier::external_type_specification]
#[verifier::external_body]
pub struct ExJsonError(json::Error);

/// Recordings number their frames from -123: frame index 0 of a match is
/// frame -123 in a playlist.
pub const FRAME_OFFSET: i64 = 123;

/// One entry of a playlist document, as it is written: the match file and
/// the window in the recording's own frame numbers.
#[derive(Clone, Debug)]
pub struct PlaylistEntry {
    pub path: String,
    pub start_frame: i64,
    pub end_frame: i64,
}

/// Why a text is not a playlist.
#[derive(Debug)]
pub enum ParsePlaylistError {
    /// The text is not JSON.
    JsonParseError(json::Error),
    /// The document is JSON but has no `"mode": "queue"` or no `queue` array.
    NotAPlaylistJsonFile,
}

/// A frame index fits the playlist's signed frame numbers.
pub open spec fn frame_fits(i: int) -> bool {
    i <= i64::MAX
}

/// The playlist entry of `c`.
pub fn playlist_entry(c: &Combo) -> (r: PlaylistEntry)
    requires
        frame_fits(c.start as int),
        frame_fits(c.end as int),
    ensures
        r.path@ == c.path@,
        r.start_frame == c.start - FRAME_OFFSET,
        r.end_frame == c.end - FRAME_OFFSET,
{
    PlaylistEntry {
        path: c.path.clone(),
        start_frame: c.start as i64 - FRAME_OFFSET,
        end_frame: c.end as i64 - FRAME_OFFSET,
    }
}

/// Relies on json::Error's `Display`: the error's description.
#[verifier::external_body]
fn json_error_text(e: &json::Error) -> String {
    e.to_string()
}

impl ParsePlaylistError {
    /// A sentence that says what is wrong with the text.
    pub fn message(&self) -> (r: String)
        ensures
            *self is NotAPlaylistJsonFile ==> r@ == "File is not a playlist."@,
            self matches ParsePlaylistError::JsonParseError(_) ==> r@.take(14) == "Invalid json: "@,
    {
        match self {
            ParsePlaylistError::JsonParseError(e) => {
                let head = String::from_str("Invalid json: ");
                let r = head.concat(json_error_text(e).as_str());
                proof {
                    reveal_strlit("Invalid json: ");
                    assert(r@.take(14) =~= "Invalid json: "@);
                }
                r
            },
            ParsePlaylistError::NotAPlaylistJsonFile => String::from_str("File is not a playlist."),
        }
    }
}

/// A frame number of the match, counted from 0.
pub open spec fn is_frame_index(i: int) -> bool {
    0 <= i <= usize::MAX
}

/// Every frame index of the combos fits the playlist's frame numbers.
pub open spec fn frames_fit(combos: Seq<Combo>) -> bool {
    forall|i: int|
        0 <= i < combos.len() ==> frame_fits(#[trigger] combos[i].start as int) && frame_fits(
            combos[i].end as int,
        )
}

/// The playlist entries of `combos`, in order.
pub fn playlist_entries(combos: &[Combo]) -> (r: Vec<PlaylistEntry>)
    requires
        frames_fit(combos@),
    ensures
        r@.len() == combos@.len(),
        forall|i: int|
            0 <= i < r@.len() ==> (#[trigger] r@[i]).path@ == combos@[i].path@ && r@[i].start_frame
                == combos@[i].start - FRAME_OFFSET && r@[i].end_frame == combos@[i].end - FRAME_OFFSET,
{
    let mut r: Vec<PlaylistEntry> = Vec::new();
    let mut i: usize = 0;
    while i < combos.len()
        invariant
            frames_fit(combos@),
            i <= combos@.len(),
            r@.len() == i,
            forall|j: int|
                0 <= j < i ==> (#[trigger] r@[j]).path@ == combos@[j].path@ && r@[j].start_frame
                    == combos@[j].start - FRAME_OFFSET && r@[j].end_frame == combos@[j].end
                    - FRAME_OFFSET,
        decreases combos@.len() - i,
    {
        r.push(playlist_entry(&combos[i]));
        i += 1;
    }
    r
}

/// The combo that a playlist entry describes: `None` when a field is
/// missing or a frame does not stand for a frame index of the match.
pub fn entry_combo(path: Option<String>, start_frame: Option<i64>, end_frame: Option<i64>) -> (r:
    Option<Combo>)
    ensures
        r is Some <==> (path is Some && start_frame is Some && end_frame is Some
            && is_frame_index(start_frame->0 + FRAME_OFFSET) && is_frame_index(end_frame->0 + FRAME_OFFSET)),
        r matches Some(c) ==> c@ == (
            path->0@,
            start_frame->0 + FRAME_OFFSET,
            end_frame->0 + FRAME_OFFSET,
        ),
{
    match (path, start_frame, end_frame) {
        (Some(p), Some(s), Some(e)) => {
            let start = s as i128 + FRAME_OFFSET as i128;
            let end = e as i128 + FRAME_OFFSET as i128;
            if start < 0 || start > usize::MAX as i128 || end < 0 || end > usize::MAX as i128 {
                None
            } else {
                Some(Combo { path: p, start: start as usize, end: end as usize })
            }
        },
        _ => None,
    }
}

/// The view of a combo rebuilt from the view of its entry.
pub open spec fn entry_combo_view(path: Seq<char>, start_frame: int, end_frame: int) -> Option<(Seq<char>, int, int)> {
    if is_frame_index(start_frame + FRAME_OFFSET) && is_frame_index(end_frame + FRAME_OFFSET) {
        Some((path, start_frame + FRAME_OFFSET, end_frame + FRAME_OFFSET))
    } else {
        None
    }
}

/// Writing a combo as a playlist entry and reading the entry back gives the
/// combo again.
pub proof fn lemma_entry_round_trip(c: Combo)
    requires
        frame_fits(c.start as int),
        frame_fits(c.end as int),
    ensures
        entry_combo_view(c.path@, c.start - FRAME_OFFSET, c.end - FRAME_OFFSET) == Some(c@),
{
}


/// The fields read from one member of a playlist's queue: its path, its
/// first frame and its last frame, each absent when missing or of another
/// JSON type.
pub type EntryFields = (Option<String>, Option<i64>, Option<i64>);

/// The view of entry fields.
pub open spec fn fields_view(f: EntryFields) -> (Option<Seq<char>>, Option<i64>, Option<i64>) {
    (
        match f.0 {
            Some(s) => Some(s@),
            None => None,
        },
        f.1,
        f.2,
    )
}

/// The combos that a list of entry fields describes, skipping the entries
/// that describe none.
pub open spec fn entries_combos(entries: Seq<(Option<Seq<char>>, Option<i64>, Option<i64>)>) -> Seq<
    (Seq<char>, int, int),
>
    decreases entries.len(),
{
    if entries.len() == 0 {
        seq![]
    } else {
        let prev = entries_combos(entries.drop_last());
        let (p, s, e) = entries.last();
        if p is Some && s is Some && e is Some {
            match entry_combo_view(p->0, s->0 as int, e->0 as int) {
                Some(c) => prev.push(c),
                None => prev,
            }
        } else {
            prev
        }
    }
}

/// Decides what a parsed JSON document holds: not a playlist unless its mode
/// is the queue and its queue is an array; else the combos of the queue's
/// entries, in order.
pub fn playlist_combos(mode_is_queue: bool, queue_is_array: bool, entries: Vec<EntryFields>) -> (r:
    Result<Vec<Combo>, ParsePlaylistError>)
    ensures
        !(mode_is_queue && queue_is_array) <==> r matches Err(ParsePlaylistError::NotAPlaylistJsonFile),
        r matches Err(e) ==> e is NotAPlaylistJsonFile,
        r matches Ok(v) ==> combos_view(v@) == entries_combos(
            entries@.map_values(|f: EntryFields| fields_view(f)),
        ),
{
    if !(mode_is_queue && queue_is_array) {
        return Err(ParsePlaylistError::NotAPlaylistJsonFile);
    }
    let ghost all = entries@;
    let ghost fv = |f: EntryFields| fields_view(f);
    let mut rest = entries;
    let mut out: Vec<Combo> = Vec::new();
    while rest.len() > 0
        invariant
            all.len() >= rest@.len(),
            all.skip(all.len() - rest@.len()) == rest@,
            fv == (|f: EntryFields| fields_view(f)),
            combos_view(out@) == entries_combos(all.take(all.len() - rest@.len()).map_values(fv)),
        decreases rest@.len(),
    {
        let ghost before = out@;
        let ghost k = all.len() - rest@.len();
        let (p, s, e) = rest.remove(0);
        proof {
            assert(all.take(k + 1).map_values(fv).drop_last() =~= all.take(k).map_values(fv));
            assert(all[k] == (p, s, e)) by {
                assert(all.skip(k)[0] == all[k]);
            }
            assert(all.take(k + 1).map_values(fv).last() == fields_view(all[k]));
            assert(all.skip(k + 1) =~= all.skip(k).drop_first());
        }
        match entry_combo(p, s, e) {
            Some(c) => {
                out.push(c);
                assert(combos_view(out@) =~= combos_view(before).push(c@));
            },
            None => {},
        }
    }
    assert(all.take(all.len() as int) =~= all);
    Ok(out)
}

/// The fields of one queue member.
pub open spec fn entry_view(v: JsonView) -> (Option<Seq<char>>, Option<i64>, Option<i64>) {
    (
        str_of(member_of(v, "path"@)),
        i64_of(member_of(v, "startFrame"@)),
        i64_of(member_of(v, "endFrame"@)),
    )
}

/// A document is a playlist: its mode is the text "queue" and its queue is
/// an array.
pub open spec fn is_playlist_doc(d: JsonView) -> bool {
    &&& str_of(member_of(d, "mode"@)) == Some("queue"@)
    &&& member_of(d, "queue"@) is Array
}

/// The combos that the queue of a playlist document describes.
pub open spec fn queue_combos(d: JsonView) -> Seq<(Seq<char>, int, int)> {
    match member_of(d, "queue"@) {
        JsonView::Array(items) => entries_combos(items.map_values(|x: JsonView| entry_view(x))),
        _ => seq![],
    }
}

fn entry_fields(v: &Json) -> (r: EntryFields)
    ensures
        fields_view(r) == entry_view(json_view(*v)),
{
    (
        text_of(find_member(v, "path")),
        integer_of(find_member(v, "startFrame")),
        integer_of(find_member(v, "endFrame")),
    )
}

/// Reads a playlist document: `JsonParseError` exactly when the text is not
/// JSON, `NotAPlaylistJsonFile` when its mode is not "queue" or its queue is
/// not an array, and else the combos of the queue's entries, in order.
pub fn parse_playlist_json(file: &str) -> (r: Result<Vec<Combo>, ParsePlaylistError>)
    ensures
        r matches Err(ParsePlaylistError::JsonParseError(_)) <==> parsed_json(file@) is None,
        parsed_json(file@) matches Some(d) ==> (r matches Err(
            ParsePlaylistError::NotAPlaylistJsonFile,
        ) <==> !is_playlist_doc(d)),
        r matches Ok(v) ==> parsed_json(file@) matches Some(d) && combos_view(v@) == queue_combos(d),
{
    let doc = match json_parse(file) {
        Ok(d) => d,
        Err(e) => return Err(ParsePlaylistError::JsonParseError(e)),
    };
    let ghost d = json_view(doc);
    let mode_is_queue = match text_of(find_member(&doc, "mode")) {
        Some(m) => str_eq(m.as_str(), "queue"),
        None => false,
    };
    let queue = find_member(&doc, "queue");
    let mut fields: Vec<EntryFields> = Vec::new();
    let queue_is_array = match queue {
        Some(Json::Array(items)) => {
            let ghost views = match opt_view(queue) {
                JsonView::Array(vs) => vs,
                _ => Seq::empty(),
            };
            assert(opt_view(queue) == JsonView::Array(views));
            assert(views.len() == items@.len());
            assert(forall|j: int| 0 <= j < items@.len() ==> #[trigger] views[j] == json_view(items@[j]));
            let mut i: usize = 0;
            while i < items.len()
                invariant
                    i <= items@.len(),
                    fields@.len() == i,
                    views.len() == items@.len(),
                    forall|j: int| 0 <= j < items@.len() ==> #[trigger] views[j] == json_view(items@[j]),
                    forall|j: int|
                        0 <= j < i ==> #[trigger] fields_view(fields@[j]) == entry_view(views[j]),
                decreases items@.len() - i,
            {
                fields.push(entry_fields(&items[i]));
                i += 1;
            }
            assert(fields@.map_values(|f: EntryFields| fields_view(f)) =~= views.map_values(
                |x: JsonView| entry_view(x),
            ));
            true
        },
        _ => false,
    };
    proof {
        reveal_strlit("queue");
    }
    playlist_combos(mode_is_queue, queue_is_array, fields)
}

/// The document of one playlist entry.
pub open spec fn entry_doc(c: Combo) -> JsonView {
    JsonView::Object(
        seq![
            ("path"@, JsonView::Str(c.path@)),
            ("startFrame"@, int_view(c.start - FRAME_OFFSET)),
            ("endFrame"@, int_view(c.end - FRAME_OFFSET)),
        ],
    )
}

/// The playlist document of `combos`: the queue mode, an empty replay, and
/// one entry per combo, in order.
pub open spec fn playlist_doc(combos: Seq<Combo>) -> JsonView {
    JsonView::Object(
        seq![
            ("mode"@, JsonView::Str("queue"@)),
            ("replay"@, JsonView::Str(""@)),
            ("queue"@, JsonView::Array(combos.map_values(|c: Combo| entry_doc(c)))),
        ],
    )
}

fn entry_json(c: &Combo) -> (r: Json)
    requires
        frame_fits(c.start as int),
        frame_fits(c.end as int),
    ensures
        json_view(r) == entry_doc(*c),
{
    let e = playlist_entry(c);
    let r = Json::Object(
        vec![
            (String::from_str("path"), string_json(e.path.as_str())),
            (String::from_str("startFrame"), integer_json(e.start_frame)),
            (String::from_str("endFrame"), integer_json(e.end_frame)),
        ],
    );
    proof {
        match json_view(r) {
            JsonView::Object(ms) => {
                match entry_doc(*c) {
                    JsonView::Object(ns) => {
                        assert(ms =~= ns);
                    },
                    _ => {},
                }
            },
            _ => {},
        }
    }
    r
}

proof fn lemma_entry_doc_printable(c: Combo)
    ensures
        printable(entry_doc(c), 62),
{
    let ms = seq![
        ("path"@, JsonView::Str(c.path@)),
        ("startFrame"@, int_view(c.start - FRAME_OFFSET)),
        ("endFrame"@, int_view(c.end - FRAME_OFFSET)),
    ];
    assert(entry_doc(c) == JsonView::Object(ms));
    assert forall|k: int| 0 <= k < ms.len() implies printable(#[trigger] ms[k].1, 61) by {
        if k == 0 {
            assert(ms[0].1 == JsonView::Str(c.path@));
        } else if k == 1 {
            assert(ms[1].1 == int_view(c.start - FRAME_OFFSET));
        } else {
            assert(ms[2].1 == int_view(c.end - FRAME_OFFSET));
        }
    }
}

proof fn lemma_playlist_doc_printable(combos: Seq<Combo>)
    ensures
        printable(playlist_doc(combos), 64),
{
    let items = combos.map_values(|c: Combo| entry_doc(c));
    assert forall|i: int| 0 <= i < items.len() implies printable(#[trigger] items[i], 62) by {
        lemma_entry_doc_printable(combos[i]);
    }
    assert(printable(JsonView::Array(items), 63));
    let ms = seq![
        ("mode"@, JsonView::Str("queue"@)),
        ("replay"@, JsonView::Str(""@)),
        ("queue"@, JsonView::Array(items)),
    ];
    assert(playlist_doc(combos) == JsonView::Object(ms));
    assert forall|k: int| 0 <= k < ms.len() implies printable(#[trigger] ms[k].1, 63) by {
        if k == 2 {
            assert(ms[2].1 == JsonView::Array(items));
        } else if k == 1 {
            assert(ms[1].1 == JsonView::Str(""@));
        } else {
            assert(ms[0].1 == JsonView::Str("queue"@));
        }
    }
}

/// Writes the playlist document of `combos`, indented by two spaces.
pub fn playlist_json(combos: &[Combo]) -> (r: String)
    requires
        frames_fit(combos@),
    ensures
        r@ == pretty_of(playlist_doc(combos@), 2),
{
    let mut items: Vec<Json> = Vec::new();
    let mut i: usize = 0;
    while i < combos.len()
        invariant
            frames_fit(combos@),
            i <= combos@.len(),
            items@.len() == i,
            forall|j: int| 0 <= j < i ==> json_view(#[trigger] items@[j]) == entry_doc(combos@[j]),
        decreases combos@.len() - i,
    {
        items.push(entry_json(&combos[i]));
        i += 1;
    }
    let doc = Json::Object(
        vec![
            (String::from_str("mode"), string_json("queue")),
            (String::from_str("replay"), string_json("")),
            (String::from_str("queue"), Json::Array(items)),
        ],
    );
    proof {
        let target = playlist_doc(combos@);
        match json_view(Json::Array(items)) {
            JsonView::Array(vs) => {
                assert(vs =~= combos@.map_values(|c: Combo| entry_doc(c)));
            },
            _ => {},
        }
        match json_view(doc) {
            JsonView::Object(ms) => {
                match target {
                    JsonView::Object(ns) => {
                        assert(ms =~= ns);
                    },
                    _ => {},
                }
            },
            _ => {},
        }
        lemma_playlist_doc_printable(combos@);
    }
    json_stringify_pretty(&doc, 2)
}

proof fn lemma_int_view_reads_back(i: int)
    requires
        i64::MIN <= i <= i64::MAX,
    ensures
        i64_of(int_view(i)) == Some(i as i64),
{
}

proof fn lemma_entry_doc_reads_back(c: Combo)
    requires
        frame_fits(c.start as int),
        frame_fits(c.end as int),
    ensures
        entry_view(entry_doc(c)) == (
            Some(c.path@),
            Some((c.start - FRAME_OFFSET) as i64),
            Some((c.end - FRAME_OFFSET) as i64),
        ),
{
    reveal_strlit("path");
    reveal_strlit("startFrame");
    reveal_strlit("endFrame");
    let ms = seq![
        ("path"@, JsonView::Str(c.path@)),
        ("startFrame"@, int_view(c.start - FRAME_OFFSET)),
        ("endFrame"@, int_view(c.end - FRAME_OFFSET)),
    ];
    let m1 = ms.drop_first();
    let m2 = m1.drop_first();
    assert(m1 =~= seq![ms[1], ms[2]]);
    assert(m2 =~= seq![ms[2]]);
    assert("path"@[0] != "startFrame"@[0]);
    assert("path"@[0] != "endFrame"@[0]);
    assert("startFrame"@[0] != "endFrame"@[0]);
    assert(member_in(ms, "path"@) == JsonView::Str(c.path@));
    assert(member_in(ms, "startFrame"@) == member_in(m1, "startFrame"@));
    assert(member_in(ms, "endFrame"@) == member_in(m1, "endFrame"@));
    assert(member_in(m1, "endFrame"@) == member_in(m2, "endFrame"@));
    lemma_int_view_reads_back(c.start - FRAME_OFFSET);
    lemma_int_view_reads_back(c.end - FRAME_OFFSET);
}

proof fn lemma_entries_read_back(combos: Seq<Combo>)
    requires
        frames_fit(combos),
    ensures
        entries_combos(
            combos.map_values(|c: Combo| entry_doc(c)).map_values(|x: JsonView| entry_view(x)),
        ) == combos_view(combos),
    decreases combos.len(),
{
    let f = |c: Combo| entry_doc(c);
    let g = |x: JsonView| entry_view(x);
    let s = combos.map_values(f).map_values(g);
    if combos.len() == 0 {
        assert(s =~= Seq::empty());
        assert(combos_view(combos) =~= Seq::empty());
    } else {
        let init = combos.drop_last();
        assert(frames_fit(init)) by {
            assert forall|i: int| 0 <= i < init.len() implies frame_fits(#[trigger] init[i].start as int)
                && frame_fits(init[i].end as int) by {
                assert(init[i] == combos[i]);
            }
        }
        lemma_entries_read_back(init);
        assert(s.drop_last() =~= init.map_values(f).map_values(g));
        let c = combos.last();
        lemma_entry_doc_reads_back(c);
        assert(s.last() == entry_view(entry_doc(c)));
        assert(combos_view(combos) =~= combos_view(init).push(c@));
    }
}

/// The playlist document of any combos whose frames fit is a playlist, and
/// its queue describes exactly those combos, in order: reading back what
/// `playlist_json` writes gives the combos again, as far as json reads back
/// the document that it printed.
pub proof fn lemma_playlist_doc_reads_back(combos: Seq<Combo>)
    requires
        frames_fit(combos),
    ensures
        is_playlist_doc(playlist_doc(combos)),
        queue_combos(playlist_doc(combos)) == combos_view(combos),
{
    reveal_strlit("mode");
    reveal_strlit("replay");
    reveal_strlit("queue");
    let items = combos.map_values(|c: Combo| entry_doc(c));
    let ms = seq![
        ("mode"@, JsonView::Str("queue"@)),
        ("replay"@, JsonView::Str(""@)),
        ("queue"@, JsonView::Array(items)),
    ];
    assert(playlist_doc(combos) == JsonView::Object(ms));
    let m1 = ms.drop_first();
    let m2 = m1.drop_first();
    assert(m1 =~= seq![ms[1], ms[2]]);
    assert(m2 =~= seq![ms[2]]);
    assert("mode"@[0] != "queue"@[0]);
    assert("replay"@[0] != "queue"@[0]);
    assert(member_in(ms, "mode"@) == JsonView::Str("queue"@));
    assert(member_in(ms, "queue"@) == member_in(m1, "queue"@));
    assert(member_in(m1, "queue"@) == member_in(m2, "queue"@));
    assert(member_of(playlist_doc(combos), "queue"@) == JsonView::Array(items));
    lemma_entries_read_back(combos);
}

} // verus!
