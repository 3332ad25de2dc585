//! Layout of the state snapshot file (TOML) written when a run ends cleanly
//! and read back as the initial state of the next run.
//!
//! The file lists the 50 internal states by section: the vapour / liquid
//! holdups of components A..H and the energy of reactor, separator,
//! stripper and compressor, the two cooling-water temperatures and the
//! twelve valve positions. The value lines name the state vector's
//! positions 0, 1, .., 49, each once and in order, and a written file reads
//! back as the values that were written.
use vstd::prelude::*;

verus! {

/// One line of the snapshot file.
#[derive(Clone, Copy, Debug)]
pub enum SnapshotLine {
    /// A line written as it is (a section header, a fixed entry, or empty).
    Text(&'static str),
    /// The description entry, which carries the simulated time of the snapshot.
    Description,
    /// `key = state[index]`, the key left-aligned in a field of `width` characters.
    Value { key: &'static str, width: usize, index: usize },
}

/// The number of internal states that the file holds.
pub const SNAPSHOT_STATES: usize = 50;

/// The name of component `i` (A..H).
pub open spec fn component_spec(i: int) -> &'static str {
    if i == 0 { "A" }
    else if i == 1 { "B" }
    else if i == 2 { "C" }
    else if i == 3 { "D" }
    else if i == 4 { "E" }
    else if i == 5 { "F" }
    else if i == 6 { "G" }
    else { "H" }
}

/// The name of valve `i`, in XMV order.
pub open spec fn valve_spec(i: int) -> &'static str {
    if i == 0 { "d_feed" }
    else if i == 1 { "e_feed" }
    else if i == 2 { "a_feed" }
    else if i == 3 { "a_c_feed" }
    else if i == 4 { "compressor_recycle_valve" }
    else if i == 5 { "purge_valve" }
    else if i == 6 { "separator_underflow" }
    else if i == 7 { "stripper_product" }
    else if i == 8 { "stripper_steam_valve" }
    else if i == 9 { "reactor_cooling_water" }
    else if i == 10 { "condenser_cooling_water" }
    else { "agitator_speed" }
}

/// The value lines of the eight component holdups at states `base .. base + 8`.
pub open spec fn component_run(base: int) -> Seq<SnapshotLine> {
    Seq::new(8, |i: int| SnapshotLine::Value { key: component_spec(i), width: 0, index: (base + i) as usize })
}

/// A section of the eight component holdups at states `base .. base + 8`.
pub open spec fn component_section(header: &'static str, base: int) -> Seq<SnapshotLine> {
    seq![SnapshotLine::Text(header)] + component_run(base) + seq![SnapshotLine::Text("")]
}

/// A section holding one energy state.
pub open spec fn energy_section(header: &'static str, index: int) -> Seq<SnapshotLine> {
    seq![
        SnapshotLine::Text(header),
        SnapshotLine::Value { key: "energy", width: 0, index: index as usize },
        SnapshotLine::Text(""),
    ]
}

pub open spec fn meta_section() -> Seq<SnapshotLine> {
    seq![
        SnapshotLine::Text("[meta]"),
        SnapshotLine::Text("mode = 1"),
        SnapshotLine::Description,
        SnapshotLine::Text("source = \"auto-snapshot from simulation\""),
        SnapshotLine::Text(""),
    ]
}

pub open spec fn cooling_section() -> Seq<SnapshotLine> {
    seq![
        SnapshotLine::Text("[state.cooling]"),
        SnapshotLine::Value { key: "reactor_water_temp", width: 20, index: 36 },
        SnapshotLine::Value { key: "separator_water_temp", width: 20, index: 37 },
        SnapshotLine::Text(""),
    ]
}

pub open spec fn valves_section() -> Seq<SnapshotLine> {
    seq![SnapshotLine::Text("[state.valves]")]
        + Seq::new(12, |i: int| SnapshotLine::Value { key: valve_spec(i), width: 25, index: (38 + i) as usize })
}

/// The lines of the snapshot file, in order.
pub open spec fn snapshot_layout_spec() -> Seq<SnapshotLine> {
    meta_section()
        + component_section("[state.reactor_vapor]", 0)
        + energy_section("[state.reactor]", 8)
        + component_section("[state.separator_vapor]", 9)
        + energy_section("[state.separator]", 17)
        + component_section("[state.stripper_liquid]", 18)
        + energy_section("[state.stripper]", 26)
        + component_section("[state.compressor_vapor]", 27)
        + energy_section("[state.compressor]", 35)
        + cooling_section()
        + valves_section()
}

/// The state positions that the value lines of `lines` name, in order.
pub open spec fn value_indices(lines: Seq<SnapshotLine>) -> Seq<int>
    decreases lines.len(),
{
    if lines.len() == 0 {
        Seq::empty()
    } else {
        let rest = value_indices(lines.drop_last());
        match lines.last() {
            SnapshotLine::Value { index, .. } => rest.push(index as int),
            _ => rest,
        }
    }
}

/// The positions `lo, lo + 1, .., hi - 1`.
pub open spec fn positions(lo: int, hi: int) -> Seq<int> {
    Seq::new((hi - lo) as nat, |i: int| lo + i)
}

proof fn lemma_value_indices_append(a: Seq<SnapshotLine>, b: Seq<SnapshotLine>)
    ensures
        value_indices(a + b) == value_indices(a) + value_indices(b),
    decreases b.len(),
{
    if b.len() == 0 {
        assert(a + b =~= a);
        assert(value_indices(a) + value_indices(b) =~= value_indices(a));
    } else {
        lemma_value_indices_append(a, b.drop_last());
        assert((a + b).drop_last() =~= a + b.drop_last());
        assert((a + b).last() == b.last());
        assert(value_indices(a + b) =~= value_indices(a) + value_indices(b));
    }
}

proof fn lemma_value_run(base: int, n: nat, key: spec_fn(int) -> &'static str, width: usize)
    requires
        0 <= base,
        base + n <= usize::MAX,
    ensures
        value_indices(Seq::new(n, |i: int| SnapshotLine::Value { key: key(i), width: width, index: (base + i) as usize }))
            == positions(base, base + n),
    decreases n,
{
    let s = Seq::new(n, |i: int| SnapshotLine::Value { key: key(i), width: width, index: (base + i) as usize });
    if n == 0 {
        assert(value_indices(s) =~= positions(base, base));
    } else {
        let m = (n - 1) as nat;
        lemma_value_run(base, m, key, width);
        assert(s.drop_last() =~= Seq::new(m, |i: int| SnapshotLine::Value { key: key(i), width: width, index: (base + i) as usize }));
        assert(value_indices(s) =~= positions(base, base + n));
    }
}

proof fn lemma_text_free(lines: Seq<SnapshotLine>)
    requires
        forall|i: int| 0 <= i < lines.len() ==> !((#[trigger] lines[i]) is Value),
    ensures
        value_indices(lines) == Seq::<int>::empty(),
    decreases lines.len(),
{
    if lines.len() > 0 {
        lemma_text_free(lines.drop_last());
    }
}

proof fn lemma_component_section(header: &'static str, base: int)
    requires
        0 <= base <= 100,
    ensures
        value_indices(component_section(header, base)) == positions(base, base + 8),
{
    let run = Seq::new(8, |i: int| SnapshotLine::Value { key: component_spec(i), width: 0, index: (base + i) as usize });
    lemma_value_run(base, 8, |i: int| component_spec(i), 0);
    assert(run =~= Seq::new(8, |i: int| SnapshotLine::Value { key: (|i: int| component_spec(i))(i), width: 0usize, index: (base + i) as usize }));
    lemma_text_free(seq![SnapshotLine::Text(header)]);
    lemma_text_free(seq![SnapshotLine::Text("")]);
    lemma_value_indices_append(seq![SnapshotLine::Text(header)], run);
    lemma_value_indices_append(seq![SnapshotLine::Text(header)] + run, seq![SnapshotLine::Text("")]);
    assert(value_indices(component_section(header, base)) =~= positions(base, base + 8));
}

proof fn lemma_energy_section(header: &'static str, index: int)
    requires
        0 <= index <= 100,
    ensures
        value_indices(energy_section(header, index)) == positions(index, index + 1),
{
    let s = energy_section(header, index);
    reveal_with_fuel(value_indices, 4);
    assert(s.drop_last() =~= seq![SnapshotLine::Text(header), SnapshotLine::Value { key: "energy", width: 0, index: index as usize }]);
    assert(s.drop_last().drop_last() =~= seq![SnapshotLine::Text(header)]);
    assert(s.drop_last().drop_last().drop_last() =~= Seq::<SnapshotLine>::empty());
    assert(value_indices(s) =~= positions(index, index + 1));
}

/// The value lines of the snapshot file name the state positions
/// 0, 1, .., 49, each exactly once and in order: writing a state vector and
/// reading the file back in line order yields the same vector.
#[verifier::spinoff_prover]
#[verifier::rlimit(50)]
pub proof fn law_snapshot_covers_every_state_once()
    ensures
        value_indices(snapshot_layout_spec()) == positions(0, SNAPSHOT_STATES as int),
{
    let m = meta_section();
    lemma_text_free(m);
    assert(value_indices(m) == Seq::<int>::empty());
    lemma_component_section("[state.reactor_vapor]", 0);
    lemma_energy_section("[state.reactor]", 8);
    lemma_component_section("[state.separator_vapor]", 9);
    lemma_energy_section("[state.separator]", 17);
    lemma_component_section("[state.stripper_liquid]", 18);
    lemma_energy_section("[state.stripper]", 26);
    lemma_component_section("[state.compressor_vapor]", 27);
    lemma_energy_section("[state.compressor]", 35);
    let c = cooling_section();
    assert(value_indices(c) =~= positions(36, 38)) by {
        reveal_with_fuel(value_indices, 5);
        assert(c.drop_last() =~= seq![c[0], c[1], c[2]]);
        assert(c.drop_last().drop_last() =~= seq![c[0], c[1]]);
        assert(c.drop_last().drop_last().drop_last() =~= seq![c[0]]);
        assert(c.drop_last().drop_last().drop_last().drop_last() =~= Seq::<SnapshotLine>::empty());
    }
    let vrun = Seq::new(12, |i: int| SnapshotLine::Value { key: valve_spec(i), width: 25usize, index: (38 + i) as usize });
    lemma_value_run(38, 12, |i: int| valve_spec(i), 25);
    assert(vrun =~= Seq::new(12, |i: int| SnapshotLine::Value { key: (|i: int| valve_spec(i))(i), width: 25usize, index: (38 + i) as usize }));
    lemma_text_free(seq![SnapshotLine::Text("[state.valves]")]);
    lemma_value_indices_append(seq![SnapshotLine::Text("[state.valves]")], vrun);
    let v = valves_section();
    assert(value_indices(v) =~= positions(38, 50));

    let s1 = m + component_section("[state.reactor_vapor]", 0);
    lemma_value_indices_append(m, component_section("[state.reactor_vapor]", 0));
    let s2 = s1 + energy_section("[state.reactor]", 8);
    lemma_value_indices_append(s1, energy_section("[state.reactor]", 8));
    let s3 = s2 + component_section("[state.separator_vapor]", 9);
    lemma_value_indices_append(s2, component_section("[state.separator_vapor]", 9));
    let s4 = s3 + energy_section("[state.separator]", 17);
    lemma_value_indices_append(s3, energy_section("[state.separator]", 17));
    let s5 = s4 + component_section("[state.stripper_liquid]", 18);
    lemma_value_indices_append(s4, component_section("[state.stripper_liquid]", 18));
    let s6 = s5 + energy_section("[state.stripper]", 26);
    lemma_value_indices_append(s5, energy_section("[state.stripper]", 26));
    let s7 = s6 + component_section("[state.compressor_vapor]", 27);
    lemma_value_indices_append(s6, component_section("[state.compressor_vapor]", 27));
    let s8 = s7 + energy_section("[state.compressor]", 35);
    lemma_value_indices_append(s7, energy_section("[state.compressor]", 35));
    let s9 = s8 + c;
    lemma_value_indices_append(s8, c);
    lemma_value_indices_append(s9, v);
    assert(value_indices(s9 + v) =~= positions(0, 50));
}

/// The line is keyed by the name of the state that it holds: the holdup
/// of component `i` (A..H) at `base + i` in each of the component sections
/// (bases 0, 9, 18 and 27) is keyed by the `i`-th letter, the energy states
/// 8, 17, 26 and 35 by `energy`, states 36 and 37 by the two cooling-water
/// temperatures, and states 38 .. 49 by the twelve valves in XMV order.
/// Lines that hold no state carry no key.
pub open spec fn keyed_as_state(line: SnapshotLine) -> bool {
    match line {
        SnapshotLine::Value { key, index, .. } => {
            if index < 36 && index % 9 < 8 {
                key@ == seq!["A"@, "B"@, "C"@, "D"@, "E"@, "F"@, "G"@, "H"@][(index % 9) as int]
            } else if index < 36 {
                key@ == "energy"@
            } else if index < 38 {
                key@ == seq!["reactor_water_temp"@, "separator_water_temp"@][index - 36]
            } else {
                key@ == seq![
                    "d_feed"@, "e_feed"@, "a_feed"@, "a_c_feed"@, "compressor_recycle_valve"@,
                    "purge_valve"@, "separator_underflow"@, "stripper_product"@,
                    "stripper_steam_valve"@, "reactor_cooling_water"@, "condenser_cooling_water"@,
                    "agitator_speed"@,
                ][index - 38]
            }
        },
        _ => true,
    }
}

pub open spec fn all_keyed_as_state(lines: Seq<SnapshotLine>) -> bool {
    forall|k: int| 0 <= k < lines.len() ==> keyed_as_state(#[trigger] lines[k])
}

proof fn lemma_keyed_append(a: Seq<SnapshotLine>, b: Seq<SnapshotLine>)
    requires
        all_keyed_as_state(a),
        all_keyed_as_state(b),
    ensures
        all_keyed_as_state(a + b),
{
    assert forall|k: int| 0 <= k < (a + b).len() implies keyed_as_state(#[trigger] (a + b)[k]) by {
        if k < a.len() {
            assert((a + b)[k] == a[k]);
        } else {
            assert((a + b)[k] == b[k - a.len()]);
        }
    }
}

proof fn lemma_component_section_keyed(header: &'static str, base: int)
    requires
        base == 0 || base == 9 || base == 18 || base == 27,
    ensures
        all_keyed_as_state(component_section(header, base)),
{
    let lines = component_section(header, base);
    assert forall|k: int| 0 <= k < lines.len() implies keyed_as_state(#[trigger] lines[k]) by {
        if 1 <= k < 9 {
            let j = k - 1;
            assert(lines[k] == component_run(base)[j]);
            assert((base + j) as usize % 9 == j);
        }
    }
}

/// In every section of the snapshot file, each value line is keyed by the
/// name of the state that it holds (see [`keyed_as_state`]): a file read by
/// key gives every state back under its own name.
pub proof fn law_snapshot_keys_name_their_state()
    ensures
        forall|k: int| 0 <= k < snapshot_layout_spec().len() ==> keyed_as_state(#[trigger] snapshot_layout_spec()[k]),
{
    let m = meta_section();
    assert(all_keyed_as_state(m));
    lemma_component_section_keyed("[state.reactor_vapor]", 0);
    lemma_component_section_keyed("[state.separator_vapor]", 9);
    lemma_component_section_keyed("[state.stripper_liquid]", 18);
    lemma_component_section_keyed("[state.compressor_vapor]", 27);
    assert(all_keyed_as_state(energy_section("[state.reactor]", 8)));
    assert(all_keyed_as_state(energy_section("[state.separator]", 17)));
    assert(all_keyed_as_state(energy_section("[state.stripper]", 26)));
    assert(all_keyed_as_state(energy_section("[state.compressor]", 35)));
    let c = cooling_section();
    assert(all_keyed_as_state(c));
    let v = valves_section();
    assert forall|k: int| 0 <= k < v.len() implies keyed_as_state(#[trigger] v[k]) by {
        if k >= 1 {
            assert(v[k] == SnapshotLine::Value { key: valve_spec(k - 1), width: 25, index: (38 + k - 1) as usize });
        }
    }
    let s1 = m + component_section("[state.reactor_vapor]", 0);
    lemma_keyed_append(m, component_section("[state.reactor_vapor]", 0));
    let s2 = s1 + energy_section("[state.reactor]", 8);
    lemma_keyed_append(s1, energy_section("[state.reactor]", 8));
    let s3 = s2 + component_section("[state.separator_vapor]", 9);
    lemma_keyed_append(s2, component_section("[state.separator_vapor]", 9));
    let s4 = s3 + energy_section("[state.separator]", 17);
    lemma_keyed_append(s3, energy_section("[state.separator]", 17));
    let s5 = s4 + component_section("[state.stripper_liquid]", 18);
    lemma_keyed_append(s4, component_section("[state.stripper_liquid]", 18));
    let s6 = s5 + energy_section("[state.stripper]", 26);
    lemma_keyed_append(s5, energy_section("[state.stripper]", 26));
    let s7 = s6 + component_section("[state.compressor_vapor]", 27);
    lemma_keyed_append(s6, component_section("[state.compressor_vapor]", 27));
    let s8 = s7 + energy_section("[state.compressor]", 35);
    lemma_keyed_append(s7, energy_section("[state.compressor]", 35));
    let s9 = s8 + c;
    lemma_keyed_append(s8, c);
    lemma_keyed_append(s9, v);
    assert(all_keyed_as_state(snapshot_layout_spec()));
}

fn component_name(i: usize) -> (s: &'static str)
    requires
        i < 8,
    ensures
        s == component_spec(i as int),
{
    if i == 0 { "A" }
    else if i == 1 { "B" }
    else if i == 2 { "C" }
    else if i == 3 { "D" }
    else if i == 4 { "E" }
    else if i == 5 { "F" }
    else if i == 6 { "G" }
    else { "H" }
}

fn valve_name(i: usize) -> (s: &'static str)
    requires
        i < 12,
    ensures
        s == valve_spec(i as int),
{
    if i == 0 { "d_feed" }
    else if i == 1 { "e_feed" }
    else if i == 2 { "a_feed" }
    else if i == 3 { "a_c_feed" }
    else if i == 4 { "compressor_recycle_valve" }
    else if i == 5 { "purge_valve" }
    else if i == 6 { "separator_underflow" }
    else if i == 7 { "stripper_product" }
    else if i == 8 { "stripper_steam_valve" }
    else if i == 9 { "reactor_cooling_water" }
    else if i == 10 { "condenser_cooling_water" }
    else { "agitator_speed" }
}

fn push_component_section(v: &mut Vec<SnapshotLine>, header: &'static str, base: usize)
    requires
        base <= 100,
    ensures
        final(v)@ == old(v)@ + component_section(header, base as int),
{
    let ghost start = v@;
    v.push(SnapshotLine::Text(header));
    let mut i: usize = 0;
    while i < 8
        invariant
            i <= 8,
            base <= 100,
            v@ == start + seq![SnapshotLine::Text(header)]
                + Seq::new(i as nat, |k: int| SnapshotLine::Value { key: component_spec(k), width: 0, index: (base + k) as usize }),
        decreases 8 - i,
    {
        v.push(SnapshotLine::Value { key: component_name(i), width: 0, index: base + i });
        i = i + 1;
        assert(v@ =~= start + seq![SnapshotLine::Text(header)]
            + Seq::new(i as nat, |k: int| SnapshotLine::Value { key: component_spec(k), width: 0, index: (base + k) as usize }));
    }
    v.push(SnapshotLine::Text(""));
    assert(v@ =~= start + component_section(header, base as int));
}

fn push_energy_section(v: &mut Vec<SnapshotLine>, header: &'static str, index: usize)
    ensures
        final(v)@ == old(v)@ + energy_section(header, index as int),
{
    let ghost start = v@;
    v.push(SnapshotLine::Text(header));
    v.push(SnapshotLine::Value { key: "energy", width: 0, index });
    v.push(SnapshotLine::Text(""));
    assert(v@ =~= start + energy_section(header, index as int));
}

/// The lines of the snapshot file, in order.
pub fn snapshot_layout() -> (v: Vec<SnapshotLine>)
    ensures
        v@ == snapshot_layout_spec(),
        value_indices(v@) == positions(0, SNAPSHOT_STATES as int),
{
    let mut v: Vec<SnapshotLine> = Vec::new();
    v.push(SnapshotLine::Text("[meta]"));
    v.push(SnapshotLine::Text("mode = 1"));
    v.push(SnapshotLine::Description);
    v.push(SnapshotLine::Text("source = \"auto-snapshot from simulation\""));
    v.push(SnapshotLine::Text(""));
    assert(v@ =~= meta_section());
    push_component_section(&mut v, "[state.reactor_vapor]", 0);
    push_energy_section(&mut v, "[state.reactor]", 8);
    push_component_section(&mut v, "[state.separator_vapor]", 9);
    push_energy_section(&mut v, "[state.separator]", 17);
    push_component_section(&mut v, "[state.stripper_liquid]", 18);
    push_energy_section(&mut v, "[state.stripper]", 26);
    push_component_section(&mut v, "[state.compressor_vapor]", 27);
    push_energy_section(&mut v, "[state.compressor]", 35);
    let ghost before_cooling = v@;
    v.push(SnapshotLine::Text("[state.cooling]"));
    v.push(SnapshotLine::Value { key: "reactor_water_temp", width: 20, index: 36 });
    v.push(SnapshotLine::Value { key: "separator_water_temp", width: 20, index: 37 });
    v.push(SnapshotLine::Text(""));
    assert(v@ =~= before_cooling + cooling_section());
    let ghost before_valves = v@;
    v.push(SnapshotLine::Text("[state.valves]"));
    let mut i: usize = 0;
    while i < 12
        invariant
            i <= 12,
            v@ == before_valves + seq![SnapshotLine::Text("[state.valves]")]
                + Seq::new(i as nat, |k: int| SnapshotLine::Value { key: valve_spec(k), width: 25, index: (38 + k) as usize }),
        decreases 12 - i,
    {
        v.push(SnapshotLine::Value { key: valve_name(i), width: 25, index: 38 + i });
        i = i + 1;
        assert(v@ =~= before_valves + seq![SnapshotLine::Text("[state.valves]")]
            + Seq::new(i as nat, |k: int| SnapshotLine::Value { key: valve_spec(k), width: 25, index: (38 + k) as usize }));
    }
    assert(v@ =~= before_valves + valves_section());
    assert(v@ =~= snapshot_layout_spec());
    proof {
        law_snapshot_covers_every_state_once();
    }
    v
}

/// `n` spaces.
pub open spec fn spaces(n: nat) -> Seq<char> {
    Seq::new(n, |i: int| ' ')
}

/// `key` left-aligned in a field of `width` characters.
pub open spec fn key_field_spec(key: Seq<char>, width: nat) -> Seq<char> {
    if key.len() < width {
        key + spaces((width - key.len()) as nat)
    } else {
        key
    }
}

/// `key` left-aligned in a field of `width` characters (padded with spaces;
/// a longer key is kept whole).
pub fn key_field(key: &str, width: usize) -> (s: String)
    ensures
        s@ == key_field_spec(key@, width as nat),
{
    let mut s = String::from_str(key);
    let mut n = key.unicode_len();
    while n < width
        invariant
            key@.len() <= n <= width || n == key@.len(),
            s@ == key@ + spaces((n - key@.len()) as nat),
        decreases width - n,
    {
        proof {
            reveal_strlit(" ");
        }
        s.append(" ");
        n = n + 1;
        assert(s@ =~= key@ + spaces((n - key@.len()) as nat));
    }
    assert(s@ =~= key_field_spec(key@, width as nat));
    s
}

// ---------------------------------------------------------------- writing

/// The text of the description entry for the snapshot time `time` (hours).
pub open spec fn description_spec(time: Seq<char>) -> Seq<char> {
    "description = \"TEP snapshot at t = "@ + time + " h\""@
}

/// The text of one line, given the text of the snapshot time and the texts
/// of the state values.
pub open spec fn render_line_spec(line: SnapshotLine, time: Seq<char>, values: Seq<Seq<char>>) -> Seq<char> {
    match line {
        SnapshotLine::Text(t) => t@,
        SnapshotLine::Description => description_spec(time),
        SnapshotLine::Value { key, width, index } => key_field_spec(key@, width as nat) + " = "@ + values[index as int],
    }
}

/// The texts of `lines` for the given time and value texts.
pub open spec fn render_lines(lines: Seq<SnapshotLine>, time: Seq<char>, values: Seq<Seq<char>>) -> Seq<Seq<char>> {
    lines.map_values(|l: SnapshotLine| render_line_spec(l, time, values))
}

/// The lines of the snapshot file for the given time and value texts.
pub open spec fn render_spec(time: Seq<char>, values: Seq<Seq<char>>) -> Seq<Seq<char>> {
    render_lines(snapshot_layout_spec(), time, values)
}

/// The text of one line of the snapshot file.
pub fn render_line(line: &SnapshotLine, time: &str, values: &[String]) -> (s: String)
    requires
        match *line {
            SnapshotLine::Value { index, .. } => index < values@.len(),
            _ => true,
        },
    ensures
        s@ == render_line_spec(*line, time@, values@.map_values(|v: String| v@)),
{
    proof {
        reveal_strlit("description = \"TEP snapshot at t = ");
        reveal_strlit(" h\"");
        reveal_strlit(" = ");
    }
    match *line {
        SnapshotLine::Text(t) => String::from_str(t),
        SnapshotLine::Description => {
            let mut s = String::from_str("description = \"TEP snapshot at t = ");
            s.append(time);
            s.append(" h\"");
            s
        },
        SnapshotLine::Value { key, width, index } => {
            let mut s = key_field(key, width);
            s.append(" = ");
            s.append(values[index].as_str());
            s
        },
    }
}

/// The lines of the snapshot file: `time` is the text of the simulated time
/// and `values[i]` the text of state `i` (states beyond the first
/// `SNAPSHOT_STATES` are not written).
pub fn render_snapshot(time: &str, values: &[String]) -> (lines: Vec<String>)
    requires
        values@.len() >= SNAPSHOT_STATES,
    ensures
        lines@.map_values(|l: String| l@) == render_spec(time@, values@.map_values(|v: String| v@)),
{
    let layout = snapshot_layout();
    let ghost vs = values@.map_values(|v: String| v@);
    let mut lines: Vec<String> = Vec::new();
    let mut i: usize = 0;
    while i < layout.len()
        invariant
            i <= layout@.len(),
            layout@ == snapshot_layout_spec(),
            values@.len() >= SNAPSHOT_STATES,
            vs == values@.map_values(|v: String| v@),
            lines@.map_values(|l: String| l@) == render_spec(time@, vs).take(i as int),
        decreases layout.len() - i,
    {
        proof {
            lemma_layout_indices_in_range(i as int);
        }
        let line = render_line(&layout[i], time, values);
        let ghost before = lines@.map_values(|l: String| l@);
        let ghost line_view = line@;
        lines.push(line);
        assert(line_view == render_line_spec(snapshot_layout_spec()[i as int], time@, vs));
        assert(render_spec(time@, vs)[i as int] == render_line_spec(snapshot_layout_spec()[i as int], time@, vs));
        assert(lines@.map_values(|l: String| l@) =~= before.push(line_view));
        assert(lines@.map_values(|l: String| l@) =~= render_spec(time@, vs).take(i + 1));
        i = i + 1;
    }
    assert(render_spec(time@, vs).take(layout@.len() as int) =~= render_spec(time@, vs));
    lines
}

proof fn lemma_layout_indices_in_range(i: int)
    requires
        0 <= i < snapshot_layout_spec().len(),
    ensures
        match snapshot_layout_spec()[i] {
            SnapshotLine::Value { index, .. } => index < SNAPSHOT_STATES,
            _ => true,
        },
{
    let s = snapshot_layout_spec();
    match s[i] {
        SnapshotLine::Value { index, .. } => {
            lemma_value_in_indices(s, i);
            law_snapshot_covers_every_state_once();
        },
        _ => {},
    }
}

proof fn lemma_value_in_indices(s: Seq<SnapshotLine>, i: int)
    requires
        0 <= i < s.len(),
        s[i] is Value,
    ensures
        value_indices(s).contains(s[i]->index as int),
    decreases s.len(),
{
    if i == s.len() - 1 {
        assert(value_indices(s).last() == s[i]->index as int);
        assert(value_indices(s)[value_indices(s).len() - 1] == s[i]->index as int);
    } else {
        lemma_value_in_indices(s.drop_last(), i);
        let w = choose|w: int| 0 <= w < value_indices(s.drop_last()).len()
            && value_indices(s.drop_last())[w] == s[i]->index as int;
        match s.last() {
            SnapshotLine::Value { index, .. } => {
                assert(value_indices(s)[w] == value_indices(s.drop_last())[w]);
            },
            _ => {
                assert(value_indices(s)[w] == value_indices(s.drop_last())[w]);
            },
        }
    }
}

// ---------------------------------------------------------------- reading

/// Blank characters around keys, values and section headers.
pub open spec fn is_blank(c: char) -> bool {
    c == ' ' || c == '\t' || c == '\r'
}

pub open spec fn trim_start_spec(s: Seq<char>) -> Seq<char>
    decreases s.len(),
{
    if s.len() > 0 && is_blank(s[0]) {
        trim_start_spec(s.drop_first())
    } else {
        s
    }
}

pub open spec fn trim_end_spec(s: Seq<char>) -> Seq<char>
    decreases s.len(),
{
    if s.len() > 0 && is_blank(s.last()) {
        trim_end_spec(s.drop_last())
    } else {
        s
    }
}

/// `s` without its leading and trailing blanks.
pub open spec fn trim_spec(s: Seq<char>) -> Seq<char> {
    trim_end_spec(trim_start_spec(s))
}

/// `p` is the position of the first `=` of `s`.
pub open spec fn first_equals_at(s: Seq<char>, p: int) -> bool {
    &&& 0 <= p < s.len()
    &&& s[p] == '='
    &&& forall|j: int| 0 <= j < p ==> s[j] != '='
}

/// The kind of a line of the snapshot file.
#[derive(Clone, Copy, Debug, PartialEq, Eq, Structural)]
pub enum LineKind {
    /// `[name]`: starts a section.
    Section,
    /// `key = value`.
    Entry,
    /// Anything else, such as an empty line.
    Other,
}

/// A parsed line: for a section its name; for an entry its key and value.
pub struct ParsedLine {
    pub kind: LineKind,
    pub name: String,
    pub value: String,
}

/// The parse of one line: kind, section name or key, and value. Blanks
/// around the line, the key and the value are dropped; the key ends at the
/// first `=`.
pub open spec fn parse_spec(line: Seq<char>) -> (LineKind, Seq<char>, Seq<char>) {
    let t = trim_spec(line);
    if t.len() >= 2 && t[0] == '[' && t.last() == ']' {
        (LineKind::Section, t.subrange(1, t.len() - 1), Seq::empty())
    } else if exists|p: int| first_equals_at(t, p) {
        let p = choose|p: int| first_equals_at(t, p);
        (LineKind::Entry, trim_spec(t.subrange(0, p)), trim_spec(t.subrange(p + 1, t.len() as int)))
    } else {
        (LineKind::Other, Seq::empty(), Seq::empty())
    }
}

/// A section whose name starts with `state.` holds state values.
pub open spec fn is_state_section(name: Seq<char>) -> bool {
    name.len() >= 6 && name.subrange(0, 6) == seq!['s', 't', 'a', 't', 'e', '.']
}

/// The values of the entries of state sections among `lines`, in file order;
/// `in_state` tells whether the lines start inside a state section.
pub open spec fn state_values_from(lines: Seq<Seq<char>>, in_state: bool) -> Seq<Seq<char>>
    decreases lines.len(),
{
    if lines.len() == 0 {
        Seq::empty()
    } else {
        let p = parse_spec(lines[0]);
        let rest = lines.drop_first();
        if p.0 == LineKind::Section {
            state_values_from(rest, is_state_section(p.1))
        } else if p.0 == LineKind::Entry && in_state {
            seq![p.2] + state_values_from(rest, in_state)
        } else {
            state_values_from(rest, in_state)
        }
    }
}

/// The state values of a snapshot file, in file order.
pub open spec fn state_values_spec(lines: Seq<Seq<char>>) -> Seq<Seq<char>> {
    state_values_from(lines, false)
}

fn is_blank_char(c: char) -> (b: bool)
    ensures
        b == is_blank(c),
{
    c == ' ' || c == '\t' || c == '\r'
}

/// `s` without its leading and trailing blanks.
pub fn trim(s: &str) -> (r: &str)
    ensures
        r@ == trim_spec(s@),
{
    let n = s.unicode_len();
    let mut lo: usize = 0;
    assert(s@.subrange(0, n as int) =~= s@);
    while lo < n && is_blank_char(s.get_char(lo))
        invariant
            lo <= n,
            n == s@.len(),
            trim_start_spec(s@) == trim_start_spec(s@.subrange(lo as int, n as int)),
        decreases n - lo,
    {
        assert(s@.subrange(lo as int, n as int).drop_first() =~= s@.subrange(lo + 1, n as int));
        lo = lo + 1;
    }
    let ghost t = s@.subrange(lo as int, n as int);
    assert(trim_start_spec(s@) == t);
    let mut hi: usize = n;
    while hi > lo && is_blank_char(s.get_char(hi - 1))
        invariant
            lo <= hi <= n,
            n == s@.len(),
            t == s@.subrange(lo as int, n as int),
            trim_end_spec(t) == trim_end_spec(s@.subrange(lo as int, hi as int)),
        decreases hi - lo,
    {
        assert(s@.subrange(lo as int, hi as int).drop_last() =~= s@.subrange(lo as int, hi - 1));
        hi = hi - 1;
    }
    s.substring_char(lo, hi)
}

fn find_equals(s: &str) -> (r: Option<usize>)
    ensures
        match r {
            Some(p) => first_equals_at(s@, p as int),
            None => forall|j: int| 0 <= j < s@.len() ==> s@[j] != '=',
        },
{
    let n = s.unicode_len();
    let mut i: usize = 0;
    while i < n
        invariant
            i <= n,
            n == s@.len(),
            forall|j: int| 0 <= j < i ==> s@[j] != '=',
        decreases n - i,
    {
        if s.get_char(i) == '=' {
            return Some(i);
        }
        i = i + 1;
    }
    None
}

/// Parses one line of the snapshot file.
pub fn parse_line(line: &str) -> (p: ParsedLine)
    ensures
        (p.kind, p.name@, p.value@) == parse_spec(line@),
{
    let t = trim(line);
    let n = t.unicode_len();
    if n >= 2 && t.get_char(0) == '[' && t.get_char(n - 1) == ']' {
        return ParsedLine { kind: LineKind::Section, name: String::from_str(t.substring_char(1, n - 1)), value: String::new() };
    }
    match find_equals(t) {
        Some(p) => {
            let key = trim(t.substring_char(0, p));
            let value = trim(t.substring_char(p + 1, n));
            proof {
                assert(first_equals_at(t@, p as int));
                let q = choose|q: int| first_equals_at(t@, q);
                assert(q == p) by {
                    if q < p {
                        assert(t@[q] != '=');
                    } else if p < q {
                        assert(t@[p as int] != '=');
                    }
                }
            }
            ParsedLine { kind: LineKind::Entry, name: String::from_str(key), value: String::from_str(value) }
        },
        None => ParsedLine { kind: LineKind::Other, name: String::new(), value: String::new() },
    }
}

fn is_state_section_name(name: &str) -> (b: bool)
    ensures
        b == is_state_section(name@),
{
    let n = name.unicode_len();
    if n < 6 {
        return false;
    }
    let b = name.get_char(0) == 's' && name.get_char(1) == 't' && name.get_char(2) == 'a'
        && name.get_char(3) == 't' && name.get_char(4) == 'e' && name.get_char(5) == '.';
    proof {
        if b {
            assert(name@.subrange(0, 6) =~= seq!['s', 't', 'a', 't', 'e', '.']);
        } else if is_state_section(name@) {
            assert(name@.subrange(0, 6)[0] == name@[0]);
            assert(name@.subrange(0, 6)[1] == name@[1]);
            assert(name@.subrange(0, 6)[2] == name@[2]);
            assert(name@.subrange(0, 6)[3] == name@[3]);
            assert(name@.subrange(0, 6)[4] == name@[4]);
            assert(name@.subrange(0, 6)[5] == name@[5]);
        }
    }
    b
}

/// The state values of a snapshot file given as its lines: the values of
/// the entries of the `[state.*]` sections, in file order.
pub fn state_values(lines: &[String]) -> (v: Vec<String>)
    ensures
        v@.map_values(|s: String| s@) == state_values_spec(lines@.map_values(|l: String| l@)),
{
    let ghost ls = lines@.map_values(|l: String| l@);
    let mut v: Vec<String> = Vec::new();
    let mut in_state = false;
    let mut i: usize = 0;
    assert(ls.skip(0) =~= ls);
    assert(v@.map_values(|s: String| s@) + state_values_from(ls, false) =~= state_values_from(ls, false));
    while i < lines.len()
        invariant
            i <= lines@.len(),
            ls == lines@.map_values(|l: String| l@),
            v@.map_values(|s: String| s@) + state_values_from(ls.skip(i as int), in_state)
                == state_values_spec(ls),
        decreases lines.len() - i,
    {
        let ghost rest = ls.skip(i as int);
        assert(rest[0] == lines@[i as int]@);
        assert(rest.drop_first() =~= ls.skip(i + 1));
        let p = parse_line(lines[i].as_str());
        let ghost before = v@.map_values(|s: String| s@);
        if p.kind == LineKind::Section {
            in_state = is_state_section_name(p.name.as_str());
        } else if p.kind == LineKind::Entry && in_state {
            let ghost pv = p.value@;
            v.push(p.value);
            assert(v@.map_values(|s: String| s@) =~= before.push(pv));
            assert(before.push(pv) + state_values_from(ls.skip(i + 1), in_state)
                =~= before + (seq![pv] + state_values_from(ls.skip(i + 1), in_state)));
        }
        i = i + 1;
    }
    assert(ls.skip(i as int) =~= Seq::<Seq<char>>::empty());
    assert(v@.map_values(|s: String| s@) + Seq::<Seq<char>>::empty() =~= v@.map_values(|s: String| s@));
    v
}

// ---------------------------------------------------------------- round trip

/// A value text that reads back as itself: not empty and without blanks at
/// its ends (as every number's text is).
pub open spec fn clean_value(v: Seq<char>) -> bool {
    v.len() > 0 && !is_blank(v[0]) && !is_blank(v.last())
}

/// A key that reads back as itself: not empty, without blanks at its ends,
/// not starting a section header and without `=`.
pub open spec fn clean_key(k: Seq<char>) -> bool {
    &&& k.len() > 0
    &&& !is_blank(k[0])
    &&& !is_blank(k.last())
    &&& k[0] != '['
    &&& forall|j: int| 0 <= j < k.len() ==> k[j] != '='
}

/// The section flag after reading `lines`, starting with flag `in_state`.
pub open spec fn state_flag_after(lines: Seq<Seq<char>>, in_state: bool) -> bool
    decreases lines.len(),
{
    if lines.len() == 0 {
        in_state
    } else {
        let p = parse_spec(lines[0]);
        state_flag_after(
            lines.drop_first(),
            if p.0 == LineKind::Section { is_state_section(p.1) } else { in_state },
        )
    }
}

proof fn lemma_state_values_append(a: Seq<Seq<char>>, b: Seq<Seq<char>>, f: bool)
    ensures
        state_values_from(a + b, f) == state_values_from(a, f) + state_values_from(b, state_flag_after(a, f)),
        state_flag_after(a + b, f) == state_flag_after(b, state_flag_after(a, f)),
    decreases a.len(),
{
    if a.len() == 0 {
        assert(a + b =~= b);
        assert(state_values_from(a, f) + state_values_from(b, f) =~= state_values_from(b, f));
    } else {
        let p = parse_spec(a[0]);
        let g = if p.0 == LineKind::Section { is_state_section(p.1) } else { f };
        lemma_state_values_append(a.drop_first(), b, g);
        assert((a + b)[0] == a[0]);
        assert((a + b).drop_first() =~= a.drop_first() + b);
        if p.0 == LineKind::Entry && f {
            assert(state_values_from(a + b, f) =~= seq![p.2] + state_values_from(a.drop_first() + b, f));
            assert(state_values_from(a + b, f) =~= state_values_from(a, f) + state_values_from(b, state_flag_after(a, f)));
        }
    }
}

proof fn lemma_trim_start_blanks(b: Seq<char>, v: Seq<char>)
    requires
        forall|j: int| 0 <= j < b.len() ==> is_blank(b[j]),
    ensures
        trim_start_spec(b + v) == trim_start_spec(v),
    decreases b.len(),
{
    if b.len() == 0 {
        assert(b + v =~= v);
    } else {
        assert((b + v)[0] == b[0]);
        assert((b + v).drop_first() =~= b.drop_first() + v);
        lemma_trim_start_blanks(b.drop_first(), v);
    }
}

proof fn lemma_trim_end_blanks(k: Seq<char>, b: Seq<char>)
    requires
        forall|j: int| 0 <= j < b.len() ==> is_blank(b[j]),
    ensures
        trim_end_spec(k + b) == trim_end_spec(k),
    decreases b.len(),
{
    if b.len() == 0 {
        assert(k + b =~= k);
    } else {
        assert((k + b).last() == b.last());
        assert((k + b).drop_last() =~= k + b.drop_last());
        lemma_trim_end_blanks(k, b.drop_last());
    }
}

proof fn lemma_trim_clean(s: Seq<char>)
    requires
        s.len() > 0,
        !is_blank(s[0]),
        !is_blank(s.last()),
    ensures
        trim_spec(s) == s,
{
}

/// A value line reads back as its key and value.
proof fn lemma_value_line(k: Seq<char>, width: nat, v: Seq<char>)
    requires
        clean_key(k),
        clean_value(v),
    ensures
        parse_spec(key_field_spec(k, width) + " = "@ + v) == (LineKind::Entry, k, v),
{
    reveal_strlit(" = ");
    let kf = key_field_spec(k, width);
    let line = kf + " = "@ + v;
    let pad = if k.len() < width { spaces((width - k.len()) as nat) } else { Seq::<char>::empty() };
    assert(kf =~= k + pad);
    assert(line[0] == k[0]);
    assert(line.last() == v.last());
    lemma_trim_clean(line);
    let p = kf.len() as int + 1;
    assert(first_equals_at(line, p)) by {
        assert(line[p] == '=');
        assert forall|j: int| 0 <= j < p implies line[j] != '=' by {
            if j < k.len() {
                assert(line[j] == k[j]);
            } else if j < kf.len() {
                assert(line[j] == pad[j - k.len()]);
            } else {
                assert(line[j] == ' ');
            }
        }
    }
    let q = choose|q: int| first_equals_at(line, q);
    assert(q == p) by {
        if q < p {
            assert(line[q] != '=');
        } else if p < q {
            assert(line[p] != '=');
        }
    }
    let blanks = pad + seq![' '];
    assert(line.subrange(0, p) =~= k + blanks);
    assert forall|j: int| 0 <= j < blanks.len() implies is_blank(blanks[j]) by {
        if j < pad.len() {
            assert(blanks[j] == pad[j]);
        }
    }
    lemma_trim_end_blanks(k, blanks);
    assert(trim_start_spec(k + blanks) == k + blanks);
    assert(trim_end_spec(k) == k);
    assert(line.subrange(p + 1, line.len() as int) =~= seq![' '] + v);
    lemma_trim_start_blanks(seq![' '], v);
    assert(trim_start_spec(v) == v);
    assert(trim_end_spec(v) == v);
}

/// A line of `lines` that is not a section header leaves the section flag.
proof fn lemma_entries(lines: Seq<Seq<char>>, f: bool)
    requires
        forall|i: int| 0 <= i < lines.len() ==> (#[trigger] parse_spec(lines[i])).0 == LineKind::Entry,
    ensures
        state_values_from(lines, f) == if f {
            lines.map_values(|l: Seq<char>| parse_spec(l).2)
        } else {
            Seq::<Seq<char>>::empty()
        },
        state_flag_after(lines, f) == f,
    decreases lines.len(),
{
    if lines.len() == 0 {
        assert(lines.map_values(|l: Seq<char>| parse_spec(l).2) =~= Seq::<Seq<char>>::empty());
    } else {
        let rest = lines.drop_first();
        assert(parse_spec(lines[0]).0 == LineKind::Entry);
        assert forall|i: int| 0 <= i < rest.len() implies (#[trigger] parse_spec(rest[i])).0 == LineKind::Entry by {
            assert(rest[i] == lines[i + 1]);
        }
        lemma_entries(rest, f);
        if f {
            assert(lines.map_values(|l: Seq<char>| parse_spec(l).2) =~= seq![parse_spec(lines[0]).2]
                + rest.map_values(|l: Seq<char>| parse_spec(l).2));
        }
    }
}

/// A line that is not a section header, an entry, or neither: it changes nothing
/// outside a state section.
proof fn lemma_plain_line(l: Seq<char>, b: Seq<Seq<char>>)
    requires
        l.len() > 0 ==> (!is_blank(l[0]) && !is_blank(l.last()) && l[0] != '['),
    ensures
        state_values_from(seq![l] + b, false) == state_values_from(b, false),
        state_flag_after(seq![l] + b, false) == state_flag_after(b, false),
{
    assert((seq![l] + b)[0] == l);
    assert((seq![l] + b).drop_first() =~= b);
    if l.len() > 0 {
        lemma_trim_clean(l);
    } else {
        assert(trim_spec(l) == l);
    }
}

proof fn lemma_header(h: Seq<char>, name: Seq<char>, b: Seq<Seq<char>>, f: bool)
    requires
        h == seq!['['] + name + seq![']'],
    ensures
        state_values_from(seq![h] + b, f) == state_values_from(b, is_state_section(name)),
        state_flag_after(seq![h] + b, f) == state_flag_after(b, is_state_section(name)),
{
    assert((seq![h] + b)[0] == h);
    assert((seq![h] + b).drop_first() =~= b);
    lemma_trim_clean(h);
    assert(h.subrange(1, h.len() - 1) =~= name);
}

proof fn lemma_render_lines_append(a: Seq<SnapshotLine>, b: Seq<SnapshotLine>, time: Seq<char>, values: Seq<Seq<char>>)
    ensures
        render_lines(a + b, time, values) == render_lines(a, time, values) + render_lines(b, time, values),
{
    assert(render_lines(a + b, time, values) =~= render_lines(a, time, values) + render_lines(b, time, values));
}

/// The value lines of `run` name clean keys and clean values.
pub open spec fn clean_run(run: Seq<SnapshotLine>, values: Seq<Seq<char>>) -> bool {
    forall|i: int| 0 <= i < run.len() ==> {
        &&& (#[trigger] run[i]) is Value
        &&& clean_key(run[i]->key@)
        &&& run[i]->index < values.len()
        &&& clean_value(values[run[i]->index as int])
    }
}

proof fn lemma_run_read(run: Seq<SnapshotLine>, time: Seq<char>, values: Seq<Seq<char>>)
    requires
        clean_run(run, values),
    ensures
        state_values_from(render_lines(run, time, values), true)
            == run.map_values(|l: SnapshotLine| values[l->index as int]),
        state_flag_after(render_lines(run, time, values), true),
{
    let r = render_lines(run, time, values);
    assert forall|i: int| 0 <= i < r.len() implies (#[trigger] parse_spec(r[i])) == (
        LineKind::Entry, run[i]->key@, values[run[i]->index as int]) by {
        lemma_value_line(run[i]->key@, run[i]->width as nat, values[run[i]->index as int]);
    }
    lemma_entries(r, true);
    assert(r.map_values(|l: Seq<char>| parse_spec(l).2) =~= run.map_values(|l: SnapshotLine| values[l->index as int]));
}

/// The header names a state section.
pub open spec fn state_header(h: Seq<char>) -> bool {
    &&& h.len() >= 8
    &&& h[0] == '['
    &&& h.last() == ']'
    &&& h.subrange(1, 7) == seq!['s', 't', 'a', 't', 'e', '.']
}

/// A state section: its header, its value lines, and an optional empty line.
proof fn lemma_section_read(
    h: &'static str,
    run: Seq<SnapshotLine>,
    trailer: bool,
    time: Seq<char>,
    values: Seq<Seq<char>>,
    f: bool,
)
    requires
        state_header(h@),
        clean_run(run, values),
    ensures
        ({
            let sec = seq![SnapshotLine::Text(h)] + run
                + if trailer { seq![SnapshotLine::Text("")] } else { Seq::<SnapshotLine>::empty() };
            &&& state_values_from(render_lines(sec, time, values), f)
                == run.map_values(|l: SnapshotLine| values[l->index as int])
            &&& state_flag_after(render_lines(sec, time, values), f)
        }),
{
    reveal_strlit("");
    let tail = if trailer { seq![SnapshotLine::Text("")] } else { Seq::<SnapshotLine>::empty() };
    let sec = seq![SnapshotLine::Text(h)] + run + tail;
    let rr = render_lines(run, time, values);
    let rt = render_lines(tail, time, values);
    assert(render_lines(sec, time, values) =~= seq![h@] + (rr + rt));
    let name = h@.subrange(1, h@.len() - 1);
    assert(h@ =~= seq!['['] + name + seq![']']);
    assert(name.subrange(0, 6) =~= h@.subrange(1, 7));
    lemma_header(h@, name, rr + rt, f);
    lemma_run_read(run, time, values);
    lemma_state_values_append(rr, rt, true);
    if trailer {
        assert(rt.len() == 1);
        assert(rt[0] == render_line_spec(SnapshotLine::Text(""), time, values));
        assert(""@.len() == 0);
        assert(rt[0] =~= Seq::<char>::empty());
        assert(rt =~= seq![Seq::<char>::empty()]);
        assert(trim_spec(Seq::<char>::empty()) == Seq::<char>::empty());
        lemma_empty_line(true);
    } else {
        assert(rt =~= Seq::<Seq<char>>::empty());
    }
    assert(state_values_from(rr + rt, true) =~= state_values_from(rr, true));
}

proof fn lemma_empty_line(f: bool)
    ensures
        state_values_from(seq![Seq::<char>::empty()], f) == Seq::<Seq<char>>::empty(),
        state_flag_after(seq![Seq::<char>::empty()], f) == f,
{
    let l = seq![Seq::<char>::empty()];
    reveal_with_fuel(state_values_from, 2);
    reveal_with_fuel(state_flag_after, 2);
    assert(trim_spec(Seq::<char>::empty()) == Seq::<char>::empty());
    assert(!exists|p: int| first_equals_at(Seq::<char>::empty(), p));
    assert(parse_spec(l[0]).0 == LineKind::Other);
    assert(l.drop_first() =~= Seq::<Seq<char>>::empty());
}

proof fn lemma_component_keys()
    ensures
        forall|i: int| 0 <= i < 8 ==> clean_key(#[trigger] component_spec(i)@),
{
    reveal_strlit("A");
    reveal_strlit("B");
    reveal_strlit("C");
    reveal_strlit("D");
    reveal_strlit("E");
    reveal_strlit("F");
    reveal_strlit("G");
    reveal_strlit("H");
}

proof fn lemma_valve_keys()
    ensures
        forall|i: int| 0 <= i < 12 ==> clean_key(#[trigger] valve_spec(i)@),
{
    reveal_strlit("d_feed");
    reveal_strlit("e_feed");
    reveal_strlit("a_feed");
    reveal_strlit("a_c_feed");
    reveal_strlit("compressor_recycle_valve");
    reveal_strlit("purge_valve");
    reveal_strlit("separator_underflow");
    reveal_strlit("stripper_product");
    reveal_strlit("stripper_steam_valve");
    reveal_strlit("reactor_cooling_water");
    reveal_strlit("condenser_cooling_water");
    reveal_strlit("agitator_speed");
}

proof fn lemma_meta_read(time: Seq<char>, values: Seq<Seq<char>>, rest: Seq<Seq<char>>)
    ensures
        state_values_from(render_lines(meta_section(), time, values) + rest, false) == state_values_from(rest, false),
        state_flag_after(render_lines(meta_section(), time, values) + rest, false) == state_flag_after(rest, false),
{
    reveal_strlit("[meta]");
    reveal_strlit("mode = 1");
    reveal_strlit("description = \"TEP snapshot at t = ");
    reveal_strlit(" h\"");
    reveal_strlit("source = \"auto-snapshot from simulation\"");
    reveal_strlit("");
    let r = render_lines(meta_section(), time, values);
    let l0 = "[meta]"@;
    let l1 = "mode = 1"@;
    let l2 = description_spec(time);
    let l3 = "source = \"auto-snapshot from simulation\""@;
    let l4 = ""@;
    assert(r =~= seq![l0, l1, l2, l3, l4]);
    let x4 = seq![l4] + rest;
    let x3 = seq![l3] + x4;
    let x2 = seq![l2] + x3;
    let x1 = seq![l1] + x2;
    assert(r + rest =~= seq![l0] + x1);
    lemma_plain_line(l4, rest);
    lemma_plain_line(l3, x4);
    assert(l2[0] == 'd');
    assert(l2.last() == '"');
    lemma_plain_line(l2, x3);
    lemma_plain_line(l1, x2);
    let name = seq!['m', 'e', 't', 'a'];
    assert(l0 =~= seq!['['] + name + seq![']']);
    lemma_header(l0, name, x1, false);
}

proof fn lemma_valid_sections(values: Seq<Seq<char>>)
    requires
        values.len() == SNAPSHOT_STATES,
        forall|i: int| 0 <= i < SNAPSHOT_STATES ==> clean_value(#[trigger] values[i]),
    ensures
        forall|base: int| 0 <= base <= 42 ==> clean_run(#[trigger] component_run(base), values),
        clean_run(Seq::new(12, |i: int| SnapshotLine::Value { key: valve_spec(i), width: 25, index: (38 + i) as usize }), values),
{
    lemma_component_keys();
    lemma_valve_keys();
    assert forall|base: int| 0 <= base <= 42 implies clean_run(#[trigger] component_run(base), values) by {
        let run = component_run(base);
        assert forall|i: int| 0 <= i < run.len() implies {
            &&& (#[trigger] run[i]) is Value
            &&& clean_key(run[i]->key@)
            &&& run[i]->index < values.len()
            &&& clean_value(values[run[i]->index as int])
        } by {
            assert(clean_key(component_spec(i)@));
            assert(clean_value(values[base + i]));
        }
    }
    let run = Seq::new(12, |i: int| SnapshotLine::Value { key: valve_spec(i), width: 25, index: (38 + i) as usize });
    assert forall|i: int| 0 <= i < run.len() implies {
        &&& (#[trigger] run[i]) is Value
        &&& clean_key(run[i]->key@)
        &&& run[i]->index < values.len()
        &&& clean_value(values[run[i]->index as int])
    } by {
        assert(clean_key(valve_spec(i)@));
        assert(clean_value(values[38 + i]));
    }
}

proof fn lemma_component_section_read(h: &'static str, base: int, time: Seq<char>, values: Seq<Seq<char>>, f: bool)
    requires
        state_header(h@),
        0 <= base <= 42,
        values.len() == SNAPSHOT_STATES,
        forall|i: int| 0 <= i < SNAPSHOT_STATES ==> clean_value(#[trigger] values[i]),
    ensures
        state_values_from(render_lines(component_section(h, base), time, values), f) == values.subrange(base, base + 8),
        state_flag_after(render_lines(component_section(h, base), time, values), f),
{
    let run = component_run(base);
    lemma_valid_sections(values);
    assert(clean_run(run, values));
    lemma_section_read(h, run, true, time, values, f);
    assert(component_section(h, base) =~= seq![SnapshotLine::Text(h)] + run + seq![SnapshotLine::Text("")]);
    assert(run.map_values(|l: SnapshotLine| values[l->index as int]) =~= values.subrange(base, base + 8));
}

proof fn lemma_single_value_run(key: &'static str, width: usize, index: int, values: Seq<Seq<char>>)
    requires
        clean_key(key@),
        0 <= index < SNAPSHOT_STATES,
        index < values.len(),
        clean_value(values[index]),
    ensures
        clean_run(seq![SnapshotLine::Value { key: key, width: width, index: index as usize }], values),
{
}

proof fn lemma_energy_section_read(h: &'static str, index: int, time: Seq<char>, values: Seq<Seq<char>>, f: bool)
    requires
        state_header(h@),
        0 <= index < SNAPSHOT_STATES,
        index < values.len(),
        clean_value(values[index]),
    ensures
        state_values_from(render_lines(energy_section(h, index), time, values), f) == seq![values[index]],
        state_flag_after(render_lines(energy_section(h, index), time, values), f),
{
    reveal_strlit("energy");
    let run = seq![SnapshotLine::Value { key: "energy", width: 0, index: index as usize }];
    lemma_single_value_run("energy", 0, index, values);
    lemma_section_read(h, run, true, time, values, f);
    assert(energy_section(h, index) =~= seq![SnapshotLine::Text(h)] + run + seq![SnapshotLine::Text("")]);
    assert(run.map_values(|l: SnapshotLine| values[l->index as int]) =~= seq![values[index]]);
}

#[verifier::spinoff_prover]
#[verifier::rlimit(50)]
proof fn lemma_round_trip_exact(time: Seq<char>, values: Seq<Seq<char>>)
    requires
        values.len() == SNAPSHOT_STATES,
        forall|i: int| 0 <= i < SNAPSHOT_STATES ==> clean_value(#[trigger] values[i]),
    ensures
        state_values_spec(render_spec(time, values)) == values,
{
    reveal_strlit("[state.reactor_vapor]");
    reveal_strlit("[state.reactor]");
    reveal_strlit("[state.separator_vapor]");
    reveal_strlit("[state.separator]");
    reveal_strlit("[state.stripper_liquid]");
    reveal_strlit("[state.stripper]");
    reveal_strlit("[state.compressor_vapor]");
    reveal_strlit("[state.compressor]");
    reveal_strlit("[state.cooling]");
    reveal_strlit("[state.valves]");
    reveal_strlit("reactor_water_temp");
    reveal_strlit("separator_water_temp");

    let m = render_lines(meta_section(), time, values);
    let c1 = render_lines(component_section("[state.reactor_vapor]", 0), time, values);
    let e1 = render_lines(energy_section("[state.reactor]", 8), time, values);
    let c2 = render_lines(component_section("[state.separator_vapor]", 9), time, values);
    let e2 = render_lines(energy_section("[state.separator]", 17), time, values);
    let c3 = render_lines(component_section("[state.stripper_liquid]", 18), time, values);
    let e3 = render_lines(energy_section("[state.stripper]", 26), time, values);
    let c4 = render_lines(component_section("[state.compressor_vapor]", 27), time, values);
    let e4 = render_lines(energy_section("[state.compressor]", 35), time, values);
    let co = render_lines(cooling_section(), time, values);
    let va = render_lines(valves_section(), time, values);
    assert(render_spec(time, values) =~= m + (c1 + (e1 + (c2 + (e2 + (c3 + (e3 + (c4 + (e4 + (co + va))))))))));

    assert("[state.reactor_vapor]"@.subrange(1, 7) =~= seq!['s', 't', 'a', 't', 'e', '.']);
    assert(state_header("[state.reactor_vapor]"@));
    assert("[state.reactor]"@.subrange(1, 7) =~= seq!['s', 't', 'a', 't', 'e', '.']);
    assert(state_header("[state.reactor]"@));
    assert("[state.separator_vapor]"@.subrange(1, 7) =~= seq!['s', 't', 'a', 't', 'e', '.']);
    assert(state_header("[state.separator_vapor]"@));
    assert("[state.separator]"@.subrange(1, 7) =~= seq!['s', 't', 'a', 't', 'e', '.']);
    assert(state_header("[state.separator]"@));
    assert("[state.stripper_liquid]"@.subrange(1, 7) =~= seq!['s', 't', 'a', 't', 'e', '.']);
    assert(state_header("[state.stripper_liquid]"@));
    assert("[state.stripper]"@.subrange(1, 7) =~= seq!['s', 't', 'a', 't', 'e', '.']);
    assert(state_header("[state.stripper]"@));
    assert("[state.compressor_vapor]"@.subrange(1, 7) =~= seq!['s', 't', 'a', 't', 'e', '.']);
    assert(state_header("[state.compressor_vapor]"@));
    assert("[state.compressor]"@.subrange(1, 7) =~= seq!['s', 't', 'a', 't', 'e', '.']);
    assert(state_header("[state.compressor]"@));
    assert("[state.cooling]"@.subrange(1, 7) =~= seq!['s', 't', 'a', 't', 'e', '.']);
    assert(state_header("[state.cooling]"@));
    assert("[state.valves]"@.subrange(1, 7) =~= seq!['s', 't', 'a', 't', 'e', '.']);
    assert(state_header("[state.valves]"@));

    lemma_component_section_read("[state.reactor_vapor]", 0, time, values, false);
    lemma_energy_section_read("[state.reactor]", 8, time, values, true);
    lemma_component_section_read("[state.separator_vapor]", 9, time, values, true);
    lemma_energy_section_read("[state.separator]", 17, time, values, true);
    lemma_component_section_read("[state.stripper_liquid]", 18, time, values, true);
    lemma_energy_section_read("[state.stripper]", 26, time, values, true);
    lemma_component_section_read("[state.compressor_vapor]", 27, time, values, true);
    lemma_energy_section_read("[state.compressor]", 35, time, values, true);

    // cooling water temperatures
    let crun = seq![
        SnapshotLine::Value { key: "reactor_water_temp", width: 20, index: 36 },
        SnapshotLine::Value { key: "separator_water_temp", width: 20, index: 37 },
    ];
    assert(clean_run(crun, values)) by {
        assert(clean_key("reactor_water_temp"@));
        assert(clean_key("separator_water_temp"@));
        assert(clean_value(values[36]));
        assert(clean_value(values[37]));
    }
    lemma_section_read("[state.cooling]", crun, true, time, values, true);
    assert(cooling_section() =~= seq![SnapshotLine::Text("[state.cooling]")] + crun + seq![SnapshotLine::Text("")]);
    assert(crun.map_values(|l: SnapshotLine| values[l->index as int]) =~= values.subrange(36, 38));

    // valve positions
    let vrun = Seq::new(12, |i: int| SnapshotLine::Value { key: valve_spec(i), width: 25, index: (38 + i) as usize });
    lemma_valid_sections(values);
    lemma_section_read("[state.valves]", vrun, false, time, values, true);
    assert(valves_section() =~= seq![SnapshotLine::Text("[state.valves]")] + vrun + Seq::<SnapshotLine>::empty());
    assert(vrun.map_values(|l: SnapshotLine| values[l->index as int]) =~= values.subrange(38, 50));

    // assemble, from the back
    lemma_state_values_append(co, va, true);
    let t9 = co + va;
    lemma_state_values_append(e4, t9, true);
    let t8 = e4 + t9;
    lemma_state_values_append(c4, t8, true);
    let t7 = c4 + t8;
    lemma_state_values_append(e3, t7, true);
    let t6 = e3 + t7;
    lemma_state_values_append(c3, t6, true);
    let t5 = c3 + t6;
    lemma_state_values_append(e2, t5, true);
    let t4 = e2 + t5;
    lemma_state_values_append(c2, t4, true);
    let t3 = c2 + t4;
    lemma_state_values_append(e1, t3, true);
    let t2 = e1 + t3;
    lemma_state_values_append(c1, t2, false);
    let t1 = c1 + t2;
    lemma_meta_read(time, values, t1);
    assert(state_values_spec(render_spec(time, values)) =~= values);
}

/// Writing a snapshot and reading it back yields the first
/// `SNAPSHOT_STATES` state values that were written, in state order: the
/// file written at the end of one experiment is a faithful initial state for
/// the next. This holds for any value texts without blanks at their ends, as
/// numbers are written.
pub proof fn law_snapshot_round_trip(time: Seq<char>, values: Seq<Seq<char>>)
    requires
        values.len() >= SNAPSHOT_STATES,
        forall|i: int| 0 <= i < SNAPSHOT_STATES ==> clean_value(#[trigger] values[i]),
    ensures
        state_values_spec(render_spec(time, values)) == values.subrange(0, SNAPSHOT_STATES as int),
{
    let first = values.subrange(0, SNAPSHOT_STATES as int);
    assert forall|i: int| 0 <= i < SNAPSHOT_STATES implies clean_value(#[trigger] first[i]) by {
        assert(first[i] == values[i]);
    }
    assert forall|k: int| 0 <= k < snapshot_layout_spec().len() implies
        #[trigger] render_spec(time, values)[k] == render_spec(time, first)[k] by {
        lemma_layout_indices_in_range(k);
    }
    assert(render_spec(time, values) =~= render_spec(time, first));
    lemma_round_trip_exact(time, first);
}

} // verus!
