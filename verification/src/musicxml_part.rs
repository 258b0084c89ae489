//! Reading a MusicXML part into Scorify staves, and a whole document into a score.
use vstd::prelude::*;

use crate::error::ConvertError;
use crate::model::{opt_view, Score, ScoreView, Staff, StaffView};
use crate::musicxml_measure::{
    find_staff, empty_acc, initial_part_state, max_nat, new_part_state, parse_measure,
    spec_parse_measure, staff_pos, MeasureAcc, MeasureResult, MeasureResultView, PartState,
    PartStateView,
};
use crate::musicxml_read::{clef_of, clef_or_treble, opt_chars_eq_ignore_case, opt_eq_ignore_case};
use crate::scorify_writer::{emit_measure, spec_emit_measure};
use crate::text::{
    chars_to_string, skip_ws_from, tail_chars, trim_start, chars_eq_str, copy_chars, push_chars,
    push_str, starts_with, starts_with_str, str_to_chars,
};
use crate::xml::{
    desc_end, descendants_end, find_in_range, read_xml, xml_parse, attribute, attribute_of, child_text,
    descendant_text, find_child, first_child, first_child_text, first_descendant_text, has_tag, kids,
    node_has_tag, node_kids, node_text, nodes_view, text_of, XmlNode, XmlNodeView,
};

verus! {

// ---------------------------------------------------------------------------
// The music of each staff of a part
// ---------------------------------------------------------------------------

/// The Scorify text of one measure of a staff, and the barline after it.
pub struct MeasureText {
    pub text: Vec<char>,
    pub barline: Vec<char>,
}

pub open spec fn texts_view(v: Seq<MeasureText>) -> Seq<(Seq<char>, Seq<char>)> {
    v.map_values(|m: MeasureText| (m.text@, m.barline@))
}

pub open spec fn music_view(v: Seq<Vec<MeasureText>>) -> Seq<Seq<(Seq<char>, Seq<char>)>> {
    v.map_values(|s: Vec<MeasureText>| texts_view(s@))
}

/// The staves' measure lists with empty lists added up to `n` staves.
pub open spec fn grow(music: Seq<Seq<(Seq<char>, Seq<char>)>>, n: int) -> Seq<Seq<(Seq<char>, Seq<char>)>> {
    if music.len() >= n {
        music
    } else {
        music + Seq::new((n - music.len()) as nat, |_i: int| Seq::<(Seq<char>, Seq<char>)>::empty())
    }
}

/// The text of measure `res` on staff `s`: its events in Scorify, after the
/// left barline where there is one.
pub open spec fn spec_measure_text(res: MeasureResultView, s: int, div: int) -> Seq<char> {
    let acc = match staff_pos(res.staves, s, 0) {
        Some(j) => res.staves[j].1,
        None => empty_acc(),
    };
    let t = spec_emit_measure(acc, div);
    match res.barline_before {
        Some(b) => if t.len() == 0 {
            b
        } else {
            b + " "@ + t
        },
        None => t,
    }
}

/// The staves' measure lists with measure `res` added to each staff from `s`
/// to `n` where its text is not empty.
pub open spec fn add_texts(
    music: Seq<Seq<(Seq<char>, Seq<char>)>>,
    res: MeasureResultView,
    div: int,
    s: int,
    n: int,
) -> Seq<Seq<(Seq<char>, Seq<char>)>>
    decreases n + 1 - s,
{
    if s > n || s < 1 {
        music
    } else {
        let t = spec_measure_text(res, s, div);
        let m2 = if t.len() > 0 && s - 1 < music.len() {
            music.update(s - 1, music[s - 1].push((t, res.barline_after)))
        } else {
            music
        };
        add_texts(m2, res, div, s + 1, n)
    }
}

/// The reading of the child nodes `ks[k..]` of a `<part>`: each `<measure>`
/// updates the part's state and adds its text to every staff.
pub open spec fn part_from(
    d: Seq<XmlNodeView>,
    ks: Seq<usize>,
    k: int,
    st: PartStateView,
    music: Seq<Seq<(Seq<char>, Seq<char>)>>,
) -> (PartStateView, Seq<Seq<(Seq<char>, Seq<char>)>>)
    decreases ks.len() - k,
{
    if k < 0 || k >= ks.len() {
        (st, music)
    } else {
        let c = ks[k] as int;
        if has_tag(d, c, "measure"@) {
            let (res, st2) = spec_parse_measure(d, c, st);
            let n = max_nat(st2.staves, 1) as int;
            part_from(d, ks, k + 1, st2, add_texts(grow(music, n), res, st2.divisions, 1, n))
        } else {
            part_from(d, ks, k + 1, st, music)
        }
    }
}

/// Measure `idx` of a staff as it stands in the staff's music: after a
/// space, then its barline, left out where it is a plain `|` at the end or
/// before a measure that opens with `|:`.
pub open spec fn music_piece(ms: Seq<(Seq<char>, Seq<char>)>, idx: int) -> Seq<char> {
    let m = ms[idx].0;
    let b = ms[idx].1;
    let next_repeat = idx + 1 < ms.len() && starts_with(ms[idx + 1].0, "|:"@);
    (if idx > 0 {
        " "@
    } else {
        seq![]
    }) + m + (if (idx + 1 < ms.len() && !(b == "|"@ && next_repeat)) || b != "|"@ {
        " "@ + b
    } else {
        seq![]
    })
}

/// The first `i` measures of a staff.
pub open spec fn music_upto(ms: Seq<(Seq<char>, Seq<char>)>, i: int) -> Seq<char>
    decreases i,
{
    if i <= 0 {
        seq![]
    } else {
        music_upto(ms, i - 1) + music_piece(ms, i - 1)
    }
}

/// The music string of a staff.
pub open spec fn staff_music_text(ms: Seq<(Seq<char>, Seq<char>)>) -> Seq<char> {
    music_upto(ms, ms.len() as int)
}

/// A staff of a part: its clef (treble where none was set) and its music.
pub open spec fn part_staff(st: PartStateView, music: Seq<Seq<(Seq<char>, Seq<char>)>>, i: int) -> StaffView {
    StaffView {
        clef: clef_or_treble(st.clefs, i + 1),
        music: staff_music_text(music[i]),
        instrument_name: None,
        instrument_name_cont: None,
        brace_start: false,
        brace_end: false,
        bracket_start: false,
        bracket_end: false,
    }
}

/// The staves of a `<part>` read with the given state, and the state after it.
pub open spec fn spec_parse_part(d: Seq<XmlNodeView>, p: int, st: PartStateView) -> (Seq<StaffView>, PartStateView) {
    let (st2, music) = part_from(d, kids(d, p), 0, st, seq![]);
    let n = max_nat(st2.staves, 1);
    let m2 = grow(music, n as int);
    (Seq::new(n, |i: int| part_staff(st2, m2, i)), st2)
}

fn grow_music(music: &mut Vec<Vec<MeasureText>>, n: usize)
    ensures
        music_view(final(music)@) == grow(music_view(old(music)@), n as int),
        final(music)@.len() >= n,
{
    let ghost m0 = music_view(music@);
    while music.len() < n
        invariant
            music@.len() <= n || music@.len() == old(music)@.len(),
            forall|i: int| 0 <= i < old(music)@.len() ==> music_view(music@)[i] == m0[i],
            forall|i: int| old(music)@.len() <= i < music@.len() ==> music_view(music@)[i] == Seq::<(Seq<char>, Seq<char>)>::empty(),
            music@.len() >= old(music)@.len(),
            m0 == music_view(old(music)@),
        decreases n - music@.len(),
    {
        let ghost prev = music_view(music@);
        music.push(Vec::new());
        assert(music_view(music@) =~~= prev.push(Seq::<(Seq<char>, Seq<char>)>::empty()));
    }
    assert(music_view(music@) =~= grow(m0, n as int));
}

/// The text of a measure on staff `s`.
fn measure_text(res: &MeasureResult, s: usize, divisions: i64) -> (r: Vec<char>)
    ensures
        r@ == spec_measure_text(res@, s as int, divisions as int),
{
    let found = find_staff(&res.staves, s);
    let t = match found {
        Some(j) => emit_measure(&res.staves[j].acc, divisions),
        None => {
            let empty = MeasureAcc { voices: Vec::new(), controls: Vec::new() };
            assert(empty@ =~~= empty_acc());
            emit_measure(&empty, divisions)
        },
    };
    match &res.barline_before {
        Some(b) => if t.len() == 0 {
            copy_chars(b.as_slice())
        } else {
            let mut out = copy_chars(b.as_slice());
            push_str(&mut out, " ");
            push_chars(&mut out, t.as_slice());
            out
        },
        None => t,
    }
}

fn add_measure_texts(music: &mut Vec<Vec<MeasureText>>, res: &MeasureResult, divisions: i64, n: usize)
    requires
        old(music)@.len() >= n,
    ensures
        music_view(final(music)@) == add_texts(music_view(old(music)@), res@, divisions as int, 1, n as int),
        final(music)@.len() == old(music)@.len(),
{
    if n == 0 {
        return;
    }
    let mut s: usize = 1;
    loop
        invariant
            1 <= s <= n,
            music@.len() == old(music)@.len(),
            old(music)@.len() >= n,
            add_texts(music_view(old(music)@), res@, divisions as int, 1, n as int) == add_texts(
                music_view(music@),
                res@,
                divisions as int,
                s as int,
                n as int,
            ),
        decreases n - s,
    {
        let t = measure_text(res, s, divisions);
        if t.len() > 0 {
            let ghost mv = music_view(music@);
            let mut list = music.remove(s - 1);
            list.push(MeasureText { text: t, barline: copy_chars(res.barline_after.as_slice()) });
            music.insert(s - 1, list);
            assert(music_view(music@) =~~= mv.update(
                s - 1,
                mv[s - 1].push((spec_measure_text(res@, s as int, divisions as int), res@.barline_after)),
            ));
        }
        if s == n {
            assert(add_texts(music_view(music@), res@, divisions as int, (s + 1) as int, n as int) == music_view(music@));
            return;
        }
        s += 1;
    }
}

fn music_string(ms: &Vec<MeasureText>) -> (r: Vec<char>)
    ensures
        r@ == staff_music_text(texts_view(ms@)),
{
    let ghost tv = texts_view(ms@);
    let mut out: Vec<char> = Vec::new();
    let mut idx: usize = 0;
    while idx < ms.len()
        invariant
            idx <= ms@.len(),
            tv == texts_view(ms@),
            out@ == music_upto(tv, idx as int),
        decreases ms@.len() - idx,
    {
        let ghost before = out@;
        if idx > 0 {
            push_str(&mut out, " ");
        }
        push_chars(&mut out, ms[idx].text.as_slice());
        let b = ms[idx].barline.as_slice();
        let next_repeat = idx + 1 < ms.len() && starts_with_str(ms[idx + 1].text.as_slice(), "|:");
        let plain = chars_eq_str(b, "|");
        if (idx + 1 < ms.len() && !(plain && next_repeat)) || !plain {
            push_str(&mut out, " ");
            push_chars(&mut out, b);
        }
        assert(out@ =~= before + music_piece(tv, idx as int));
        idx += 1;
    }
    out
}

/// Reads the staves of a `<part>`, updating the part's state.
pub fn parse_part(nodes: &Vec<XmlNode>, part: usize, state: &mut PartState) -> (r: Vec<Staff>)
    requires
        i32::MIN <= old(state).divisions <= i32::MAX,
    ensures
        (r@.map_values(|s: Staff| s@), final(state)@) == spec_parse_part(nodes_view(nodes@), part as int, old(state)@),
{
    let ghost d = nodes_view(nodes@);
    let ghost st0 = state@;
    let mut music: Vec<Vec<MeasureText>> = Vec::new();
    let ks = node_kids(nodes, part);
    let mut k: usize = 0;
    assert(music_view(music@) =~= Seq::<Seq<(Seq<char>, Seq<char>)>>::empty());
    while k < ks.len()
        invariant
            k <= ks@.len(),
            d == nodes_view(nodes@),
            ks@ == kids(d, part as int),
            i32::MIN <= state.divisions <= i32::MAX,
            part_from(d, ks@, 0, st0, seq![]) == part_from(d, ks@, k as int, state@, music_view(music@)),
        decreases ks@.len() - k,
    {
        let c = ks[k];
        if node_has_tag(nodes, c, "measure") {
            let res = parse_measure(nodes, c, state);
            let n = if state.staves >= 1 {
                state.staves
            } else {
                1
            };
            grow_music(&mut music, n);
            add_measure_texts(&mut music, &res, state.divisions, n);
        }
        k += 1;
    }
    let n = if state.staves >= 1 {
        state.staves
    } else {
        1
    };
    grow_music(&mut music, n);
    let ghost mv = music_view(music@);
    let mut staves: Vec<Staff> = Vec::new();
    let mut i: usize = 0;
    while i < n
        invariant
            i <= n,
            n == max_nat(state@.staves, 1),
            music@.len() >= n,
            mv == music_view(music@),
            staves@.len() == i,
            forall|j: int| 0 <= j < i ==> (#[trigger] staves@[j])@ == part_staff(state@, mv, j),
        decreases n - i,
    {
        let clef = match clef_of(&state.clefs, i + 1) {
            Some(c) => c,
            None => str_to_chars("treble"),
        };
        let text = music_string(&music[i]);
        staves.push(Staff {
            clef,
            music: text,
            instrument_name: None,
            instrument_name_cont: None,
            brace_start: false,
            brace_end: false,
            bracket_start: false,
            bracket_end: false,
        });
        i += 1;
    }
    assert(staves@.map_values(|s: Staff| s@) =~= Seq::new(n as nat, |j: int| part_staff(state@, mv, j)));
    staves
}

// ---------------------------------------------------------------------------
// The score
// ---------------------------------------------------------------------------

/// The id and names that the part list gives a part.
pub struct PartInfoView {
    pub id: Seq<char>,
    pub name: Option<Seq<char>>,
    pub abbreviation: Option<Seq<char>>,
}

/// The `<score-part>` entries among the nodes `ks[k..]`.
pub open spec fn part_infos_from(d: Seq<XmlNodeView>, ks: Seq<usize>, k: int) -> Seq<PartInfoView>
    decreases ks.len() - k,
{
    if k < 0 || k >= ks.len() {
        seq![]
    } else {
        let c = ks[k] as int;
        let rest = part_infos_from(d, ks, k + 1);
        if has_tag(d, c, "score-part"@) {
            seq![
                PartInfoView {
                    id: match attribute(d, c, "id"@) {
                        Some(x) => x,
                        None => seq![],
                    },
                    name: first_child_text(d, c, "part-name"@),
                    abbreviation: first_child_text(d, c, "part-abbreviation"@),
                },
            ] + rest
        } else {
            rest
        }
    }
}

/// The entries of the score's part list.
pub open spec fn spec_collect_part_infos(d: Seq<XmlNodeView>, root: int) -> Seq<PartInfoView> {
    match first_child(d, root, "part-list"@) {
        Some(pl) => part_infos_from(d, kids(d, pl), 0),
        None => seq![],
    }
}

/// The entry of a part id; the last one where the list repeats the id.
pub open spec fn info_lookup(infos: Seq<PartInfoView>, id: Seq<char>) -> Option<PartInfoView>
    decreases infos.len(),
{
    if infos.len() == 0 {
        None
    } else if infos.last().id == id {
        Some(infos.last())
    } else {
        info_lookup(infos.drop_last(), id)
    }
}

/// The first `creator` element among `[j, end)` whose `type` is `composer`.
pub open spec fn composer_in_range(d: Seq<XmlNodeView>, j: int, end: int) -> Option<int>
    decreases end - j,
{
    if j >= end {
        None
    } else if has_tag(d, j, "creator"@) && opt_eq_ignore_case(attribute(d, j, "type"@), "composer"@) {
        Some(j)
    } else {
        composer_in_range(d, j + 1, end)
    }
}

/// The `<part>` children among `ks[k..]`.
pub open spec fn part_nodes(d: Seq<XmlNodeView>, ks: Seq<usize>, k: int) -> Seq<usize>
    decreases ks.len() - k,
{
    if k < 0 || k >= ks.len() {
        seq![]
    } else if has_tag(d, ks[k] as int, "part"@) {
        seq![ks[k]] + part_nodes(d, ks, k + 1)
    } else {
        part_nodes(d, ks, k + 1)
    }
}

/// A staff of a part with its part's names on the first staff, and a brace
/// for a treble-and-bass pair or a bracket for other parts of several staves.
pub open spec fn decorate(s: StaffView, i: int, info: Option<PartInfoView>, grand: bool, staves: nat) -> StaffView {
    StaffView {
        clef: s.clef,
        music: s.music,
        instrument_name: if i == 0 {
            match info {
                Some(p) => p.name,
                None => None,
            }
        } else {
            s.instrument_name
        },
        instrument_name_cont: if i == 0 {
            match info {
                Some(p) => p.abbreviation,
                None => None,
            }
        } else {
            s.instrument_name_cont
        },
        brace_start: if grand {
            i == 0
        } else {
            s.brace_start
        },
        brace_end: if grand {
            i == 1
        } else {
            s.brace_end
        },
        bracket_start: if !grand && staves > 1 {
            i == 0
        } else {
            s.bracket_start
        },
        bracket_end: if !grand && staves > 1 {
            i + 1 == staves
        } else {
            s.bracket_end
        },
    }
}

/// The score after the parts `parts[k..]`: each part's staves, decorated,
/// and the first key and time that a part declares.
pub open spec fn score_parts_from(
    d: Seq<XmlNodeView>,
    parts: Seq<usize>,
    k: int,
    infos: Seq<PartInfoView>,
    score: ScoreView,
) -> ScoreView
    decreases parts.len() - k,
{
    if k < 0 || k >= parts.len() {
        score
    } else {
        let p = parts[k] as int;
        let id = match attribute(d, p, "id"@) {
            Some(x) => x,
            None => seq![],
        };
        let info = info_lookup(infos, id);
        let (staves, st) = spec_parse_part(d, p, initial_part_state());
        let grand = staves.len() == 2 && staves[0].clef == "treble"@ && staves[1].clef == "bass"@;
        let decorated = Seq::new(staves.len(), |i: int| decorate(staves[i], i, info, grand, st.staves));
        let score2 = ScoreView {
            title: score.title,
            composer: score.composer,
            key: if score.key is None {
                st.key
            } else {
                score.key
            },
            time: if score.time is None {
                st.time
            } else {
                score.time
            },
            staves: score.staves + decorated,
        };
        score_parts_from(d, parts, k + 1, infos, score2)
    }
}

/// The `score-partwise` element of a document: the first one in document order.
pub open spec fn score_root(d: Seq<XmlNodeView>) -> Option<int> {
    find_in_range(d, 0, d.len() as int, "score-partwise"@)
}

/// The `<part>` elements of the score.
pub open spec fn score_parts(d: Seq<XmlNodeView>, root: int) -> Seq<usize> {
    part_nodes(d, kids(d, root), 0)
}

/// The score a MusicXML document describes: title (movement title, else
/// work title), composer, and the staves of its parts in order.
pub open spec fn spec_score_of(d: Seq<XmlNodeView>) -> Option<ScoreView> {
    match score_root(d) {
        Some(root) => {
            let parts = score_parts(d, root);
            if parts.len() == 0 {
                None
            } else {
                let title = match first_child_text(d, root, "movement-title"@) {
                    Some(t) => Some(t),
                    None => first_descendant_text(d, root, "work-title"@),
                };
                let composer = match composer_in_range(d, root, desc_end(d, root)) {
                    Some(c) => node_text(d, c),
                    None => None,
                };
                let start = ScoreView { title, composer, key: None, time: None, staves: seq![] };
                Some(score_parts_from(d, parts, 0, spec_collect_part_infos(d, root), start))
            }
        },
        None => None,
    }
}

/// A text without the byte order marks at its start, then without leading whitespace.
pub open spec fn skip_bom(s: Seq<char>) -> Seq<char>
    decreases s.len(),
{
    if s.len() > 0 && s[0] == '\u{feff}' {
        skip_bom(s.drop_first())
    } else {
        s
    }
}

pub open spec fn musicxml_body(xml: Seq<char>) -> Seq<char> {
    trim_start(skip_bom(xml))
}

/// The score of a MusicXML text, given that it parses.
pub open spec fn spec_parse_musicxml(xml: Seq<char>) -> Option<ScoreView> {
    match xml_parse(musicxml_body(xml)) {
        Some(d) => spec_score_of(d),
        None => None,
    }
}

pub struct PartInfo {
    pub id: Vec<char>,
    pub name: Option<Vec<char>>,
    pub abbreviation: Option<Vec<char>>,
}

impl View for PartInfo {
    type V = PartInfoView;

    open spec fn view(&self) -> PartInfoView {
        PartInfoView { id: self.id@, name: opt_view(self.name), abbreviation: opt_view(self.abbreviation) }
    }
}

pub open spec fn infos_view(v: Seq<PartInfo>) -> Seq<PartInfoView> {
    v.map_values(|p: PartInfo| p@)
}

pub fn collect_part_infos(nodes: &Vec<XmlNode>, root: usize) -> (r: Vec<PartInfo>)
    ensures
        infos_view(r@) == spec_collect_part_infos(nodes_view(nodes@), root as int),
{
    let ghost d = nodes_view(nodes@);
    let mut out: Vec<PartInfo> = Vec::new();
    let pl = match find_child(nodes, root, "part-list") {
        Some(pl) => pl,
        None => {
            assert(infos_view(out@) =~= Seq::<PartInfoView>::empty());
            return out;
        },
    };
    let ks = node_kids(nodes, pl);
    let mut k = ks.len();
    assert(infos_view(out@) =~= part_infos_from(d, ks@, k as int));
    while k > 0
        invariant
            k <= ks@.len(),
            d == nodes_view(nodes@),
            ks@ == kids(d, pl as int),
            infos_view(out@) == part_infos_from(d, ks@, k as int),
        decreases k,
    {
        k -= 1;
        let c = ks[k];
        if node_has_tag(nodes, c, "score-part") {
            let id = match attribute_of(nodes, c, "id") {
                Some(x) => x,
                None => Vec::new(),
            };
            let info = PartInfo {
                id,
                name: child_text(nodes, c, "part-name"),
                abbreviation: child_text(nodes, c, "part-abbreviation"),
            };
            out.insert(0, info);
        }
        assert(infos_view(out@) =~= part_infos_from(d, ks@, k as int));
    }
    out
}

fn lookup_info(infos: &Vec<PartInfo>, id: &Vec<char>) -> (r: Option<usize>)
    ensures
        match r {
            Some(j) => j < infos@.len() && info_lookup(infos_view(infos@), id@) == Some(infos@[j as int]@),
            None => info_lookup(infos_view(infos@), id@) is None,
        },
{
    let ghost iv = infos_view(infos@);
    let mut k = infos.len();
    assert(iv.take(k as int) == iv);
    while k > 0
        invariant
            k <= infos@.len(),
            iv == infos_view(infos@),
            info_lookup(iv, id@) == info_lookup(iv.take(k as int), id@),
        decreases k,
    {
        assert(iv.take(k as int).drop_last() == iv.take(k - 1));
        if crate::text::chars_equal(infos[k - 1].id.as_slice(), id.as_slice()) {
            return Some(k - 1);
        }
        k -= 1;
    }
    None
}

fn find_composer(nodes: &Vec<XmlNode>, from: usize, end: usize) -> (r: Option<usize>)
    ensures
        match r {
            Some(c) => composer_in_range(nodes_view(nodes@), from as int, end as int) == Some(c as int),
            None => composer_in_range(nodes_view(nodes@), from as int, end as int) is None,
        },
{
    let ghost d = nodes_view(nodes@);
    let mut j = from;
    while j < end
        invariant
            from <= j,
            d == nodes_view(nodes@),
            composer_in_range(d, from as int, end as int) == composer_in_range(d, j as int, end as int),
        decreases end - j,
    {
        if node_has_tag(nodes, j, "creator") {
            let kind = attribute_of(nodes, j, "type");
            if opt_chars_eq_ignore_case(&kind, "composer") {
                return Some(j);
            }
        }
        j += 1;
    }
    None
}

fn find_score_root(nodes: &Vec<XmlNode>) -> (r: Option<usize>)
    ensures
        match r {
            Some(c) => score_root(nodes_view(nodes@)) == Some(c as int),
            None => score_root(nodes_view(nodes@)) is None,
        },
{
    let ghost d = nodes_view(nodes@);
    let mut j: usize = 0;
    while j < nodes.len()
        invariant
            j <= nodes@.len(),
            d == nodes_view(nodes@),
            score_root(d) == find_in_range(d, j as int, d.len() as int, "score-partwise"@),
        decreases nodes@.len() - j,
    {
        if node_has_tag(nodes, j, "score-partwise") {
            return Some(j);
        }
        j += 1;
    }
    None
}

fn collect_parts(nodes: &Vec<XmlNode>, root: usize) -> (r: Vec<usize>)
    ensures
        r@ == score_parts(nodes_view(nodes@), root as int),
{
    let ghost d = nodes_view(nodes@);
    let ks = node_kids(nodes, root);
    let mut out: Vec<usize> = Vec::new();
    let mut k = ks.len();
    while k > 0
        invariant
            k <= ks@.len(),
            d == nodes_view(nodes@),
            ks@ == kids(d, root as int),
            out@ == part_nodes(d, ks@, k as int),
        decreases k,
    {
        k -= 1;
        if node_has_tag(nodes, ks[k], "part") {
            out.insert(0, ks[k]);
        }
        assert(out@ =~= part_nodes(d, ks@, k as int));
    }
    out
}

fn copy_opt_chars(o: &Option<Vec<char>>) -> (r: Option<Vec<char>>)
    ensures
        opt_view(r) == opt_view(*o),
{
    match o {
        Some(x) => Some(copy_chars(x.as_slice())),
        None => None,
    }
}

/// Reads one `<part>` into the score.
fn add_part(nodes: &Vec<XmlNode>, p: usize, infos: &Vec<PartInfo>, score: &mut Score)
    ensures
        final(score)@ == score_parts_from(nodes_view(nodes@), seq![p], 0, infos_view(infos@), old(score)@),
{
    let ghost d = nodes_view(nodes@);
    let id = match attribute_of(nodes, p, "id") {
        Some(x) => x,
        None => Vec::new(),
    };
    proof {
        reveal_strlit("");
    }
    let info = lookup_info(infos, &id);
    let mut state = new_part_state();
    let staves = parse_part(nodes, p, &mut state);
    let ghost sv = staves@.map_values(|s: Staff| s@);
    let grand = staves.len() == 2 && chars_eq_str(staves[0].clef.as_slice(), "treble") && chars_eq_str(
        staves[1].clef.as_slice(),
        "bass",
    );
    assert(grand == (sv.len() == 2 && sv[0].clef == "treble"@ && sv[1].clef == "bass"@));
    let ghost info_v = info_lookup(infos_view(infos@), id@);
    let ghost s0 = score@;
    let n = staves.len();
    let mut index: usize = 0;
    while index < n
        invariant
            index <= n == staves@.len() == sv.len(),
            sv == staves@.map_values(|s: Staff| s@),
            score@.staves.len() == s0.staves.len() + index,
            forall|j: int| 0 <= j < s0.staves.len() ==> score@.staves[j] == s0.staves[j],
            forall|j: int|
                0 <= j < index ==> score@.staves[s0.staves.len() + j] == decorate(
                    sv[j],
                    j,
                    info_v,
                    grand,
                    state@.staves,
                ),
            score@.title == s0.title,
            score@.composer == s0.composer,
            score@.key == s0.key,
            score@.time == s0.time,
            match info {
                Some(k) => k < infos@.len() && info_v == Some(infos@[k as int]@),
                None => info_v is None,
            },
        decreases n - index,
    {
        let st = &staves[index];
        let (name, cont) = if index == 0 {
            match info {
                Some(k) => (copy_opt_chars(&infos[k].name), copy_opt_chars(&infos[k].abbreviation)),
                None => (None, None),
            }
        } else {
            (copy_opt_chars(&st.instrument_name), copy_opt_chars(&st.instrument_name_cont))
        };
        let many = state.staves > 1;
        let staff = Staff {
            clef: copy_chars(st.clef.as_slice()),
            music: copy_chars(st.music.as_slice()),
            instrument_name: name,
            instrument_name_cont: cont,
            brace_start: if grand {
                index == 0
            } else {
                st.brace_start
            },
            brace_end: if grand {
                index == 1
            } else {
                st.brace_end
            },
            bracket_start: if !grand && many {
                index == 0
            } else {
                st.bracket_start
            },
            bracket_end: if !grand && many {
                index + 1 == state.staves
            } else {
                st.bracket_end
            },
        };
        assert(staff@ == decorate(sv[index as int], index as int, info_v, grand, state@.staves));
        score.staves.push(staff);
        index += 1;
    }
    if score.key.is_none() {
        score.key = copy_opt_chars(&state.key);
    }
    if score.time.is_none() {
        score.time = copy_opt_chars(&state.time);
    }
    proof {
        let decorated = Seq::new(sv.len(), |i: int| decorate(sv[i], i, info_v, grand, state@.staves));
        assert(score@.staves =~= s0.staves + decorated);
        assert(spec_parse_part(d, p as int, initial_part_state()) == (sv, state@));
        assert(score_parts_from(d, seq![p], 1, infos_view(infos@), score@) == score@);
    }
}

/// Reads a MusicXML text into a score: `Xml` where it does not parse,
/// `MissingScore` without a `score-partwise` element, `NoParts` where that
/// has no part.
pub fn parse_musicxml(xml: &str) -> (r: Result<Score, ConvertError>)
    ensures
        match r {
            Ok(score) => spec_parse_musicxml(xml@) == Some(score@),
            Err(e) => spec_parse_musicxml(xml@) is None && match xml_parse(musicxml_body(xml@)) {
                None => e is Xml,
                Some(d) => match score_root(d) {
                    None => e is MissingScore,
                    Some(root) => e is NoParts && score_parts(d, root).len() == 0,
                },
            },
        },
{
    let chars = str_to_chars(xml);
    let mut from: usize = 0;
    assert(chars@.skip(0) == chars@);
    while from < chars.len() && chars[from] == '\u{feff}'
        invariant
            from <= chars@.len(),
            chars@ == xml@,
            skip_bom(chars@) == skip_bom(chars@.skip(from as int)),
        decreases chars@.len() - from,
    {
        assert(chars@.skip(from as int).drop_first() == chars@.skip(from + 1));
        from += 1;
    }
    assert(chars@.skip(from as int) == chars@.subrange(from as int, chars@.len() as int));
    let start = skip_ws_from(chars.as_slice(), from);
    let body = tail_chars(chars.as_slice(), start);
    assert(body@ == musicxml_body(xml@));
    let text = chars_to_string(body.as_slice());
    let nodes = match read_xml(text.as_str()) {
        Ok(n) => n,
        Err(e) => {
            return Err(ConvertError::Xml(e));
        },
    };
    let ghost d = nodes_view(nodes@);
    let root = match find_score_root(&nodes) {
        Some(r) => r,
        None => {
            return Err(ConvertError::MissingScore);
        },
    };
    let parts = collect_parts(&nodes, root);
    if parts.len() == 0 {
        return Err(ConvertError::NoParts);
    }
    let infos = collect_part_infos(&nodes, root);
    let title = match child_text(&nodes, root, "movement-title") {
        Some(t) => Some(t),
        None => descendant_text(&nodes, root, "work-title"),
    };
    let end = descendants_end(&nodes, root);
    let composer = match find_composer(&nodes, root, end) {
        Some(c) => text_of(&nodes, c),
        None => None,
    };
    let mut score = Score { title, composer, key: None, time: None, staves: Vec::new() };
    let ghost start_view = score@;
    assert(start_view.staves =~= Seq::<StaffView>::empty());
    let mut k: usize = 0;
    while k < parts.len()
        invariant
            k <= parts@.len(),
            d == nodes_view(nodes@),
            parts@ == score_parts(d, root as int),
            score_parts_from(d, parts@, 0, infos_view(infos@), start_view) == score_parts_from(
                d,
                parts@,
                k as int,
                infos_view(infos@),
                score@,
            ),
        decreases parts@.len() - k,
    {
        let ghost before = score@;
        add_part(&nodes, parts[k], &infos, &mut score);
        proof {
            lemma_score_parts_step(d, parts@, k as int, infos_view(infos@), before);
        }
        k += 1;
    }
    Ok(score)
}

proof fn lemma_score_parts_step(d: Seq<XmlNodeView>, parts: Seq<usize>, k: int, infos: Seq<PartInfoView>, score: ScoreView)
    requires
        0 <= k < parts.len(),
    ensures
        score_parts_from(d, parts, k, infos, score) == score_parts_from(
            d,
            parts,
            k + 1,
            infos,
            score_parts_from(d, seq![parts[k]], 0, infos, score),
        ),
{
    let one = seq![parts[k]];
    assert(one[0] == parts[k]);
    reveal_with_fuel(score_parts_from, 2);
}

} // verus!
