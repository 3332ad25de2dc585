//! Variable metadata of the Tennessee Eastman process.
//!
//! The paper and the FORTRAN code number variables from 1 (`XMEAS(1)` ..
//! `XMEAS(41)`, `XMV(1)` .. `XMV(12)`), while vectors here are indexed from 0.
//! The `index` of a [`VarMeta`] is always 0-based; its `tag` is the 1-based
//! human reference, so `XMEAS(9)` (reactor temperature) is `outputs[8]`.
//! Every table of this module keeps `tag == PREFIX(index + 1)`.
use vstd::prelude::*;

verus! {

/// The role of a process variable.
#[derive(Debug, Clone, Copy)]
pub enum VarKind {
    State,
    /// An XMEAS entry.
    Measurement,
    /// An XMV entry.
    Manipulated,
}

/// Description of one process variable.
#[derive(Debug, Clone, Copy)]
pub struct VarMeta {
    /// 0-based position in the measurement / manipulated vector.
    pub index: usize,
    pub name: &'static str,
    /// 1-based human reference, such as `XMEAS(9)`.
    pub tag: &'static str,
    pub unit: &'static str,
    pub kind: VarKind,
}

/// The character of a decimal digit.
pub open spec fn digit_char(d: nat) -> char {
    if d == 0 { '0' }
    else if d == 1 { '1' }
    else if d == 2 { '2' }
    else if d == 3 { '3' }
    else if d == 4 { '4' }
    else if d == 5 { '5' }
    else if d == 6 { '6' }
    else if d == 7 { '7' }
    else if d == 8 { '8' }
    else { '9' }
}

/// The decimal representation of `n`, without leading zeros.
pub open spec fn decimal(n: nat) -> Seq<char>
    decreases n,
{
    if n < 10 {
        seq![digit_char(n)]
    } else {
        decimal(n / 10).push(digit_char(n % 10))
    }
}

/// `prefix(number)`, such as `XMEAS(9)` for `("XMEAS", 9)`.
pub open spec fn numbered(prefix: Seq<char>, number: nat) -> Seq<char> {
    prefix + seq!['('] + decimal(number) + seq![')']
}

/// The tag convention: a variable at 0-based `index` is tagged `prefix(index + 1)`.
pub open spec fn tag_follows_index(m: VarMeta, prefix: Seq<char>) -> bool {
    m.tag@ == numbered(prefix, (m.index + 1) as nat)
}

pub open spec fn xmeas_prefix() -> Seq<char> {
    seq!['X', 'M', 'E', 'A', 'S']
}

pub open spec fn xmv_prefix() -> Seq<char> {
    seq!['X', 'M', 'V']
}

fn digit_str(d: usize) -> (s: &'static str)
    requires
        d < 10,
    ensures
        s@ == seq![digit_char(d as nat)],
{
    proof {
        reveal_strlit("0");
        reveal_strlit("1");
        reveal_strlit("2");
        reveal_strlit("3");
        reveal_strlit("4");
        reveal_strlit("5");
        reveal_strlit("6");
        reveal_strlit("7");
        reveal_strlit("8");
        reveal_strlit("9");
    }
    if d == 0 { "0" }
    else if d == 1 { "1" }
    else if d == 2 { "2" }
    else if d == 3 { "3" }
    else if d == 4 { "4" }
    else if d == 5 { "5" }
    else if d == 6 { "6" }
    else if d == 7 { "7" }
    else if d == 8 { "8" }
    else { "9" }
}

/// The decimal representation of `n`.
pub fn decimal_string(n: usize) -> (s: String)
    ensures
        s@ == decimal(n as nat),
    decreases n,
{
    if n < 10 {
        String::from_str(digit_str(n))
    } else {
        let mut s = decimal_string(n / 10);
        s.append(digit_str(n % 10));
        s
    }
}

/// `prefix(number)` as a string, such as `XMEAS(9)`.
pub fn numbered_string(prefix: &str, number: usize) -> (s: String)
    ensures
        s@ == numbered(prefix@, number as nat),
{
    proof {
        reveal_strlit("(");
        reveal_strlit(")");
    }
    let mut s = String::from_str(prefix);
    s.append("(");
    s.append(decimal_string(number).as_str());
    s.append(")");
    s
}

/// The measurements singled out by the service: reactor temperature
/// (`XMEAS(9)`) and reactor pressure (`XMEAS(7)`).
pub fn measurements() -> (v: Vec<VarMeta>)
    ensures
        v.len() == 2,
        v[0].index == 8 && v[0].name == "Reactor temperature" && v[0].tag == "XMEAS(9)"
            && v[0].unit == "°C" && v[0].kind is Measurement,
        v[1].index == 6 && v[1].name == "Reactor pressure" && v[1].tag == "XMEAS(7)"
            && v[1].unit == "kPa" && v[1].kind is Measurement,
        forall|i: int| 0 <= i < v.len() ==> tag_follows_index(#[trigger] v[i], xmeas_prefix()),
{
    proof {
    reveal_strlit("XMEAS(9)");
    reveal_strlit("XMEAS(7)");
    }
    let v = vec![
        VarMeta {
            index: 8,
            name: "Reactor temperature",
            tag: "XMEAS(9)",
            unit: "°C",
            kind: VarKind::Measurement,
        },
        VarMeta {
            index: 6,
            name: "Reactor pressure",
            tag: "XMEAS(7)",
            unit: "kPa",
            kind: VarKind::Measurement,
        },
    ];
    assert(v[0].tag@ =~= numbered(xmeas_prefix(), 9));
    assert(v[1].tag@ =~= numbered(xmeas_prefix(), 7));
    v
}

/// The manipulated variables singled out by the service: the stripper steam
/// valve (`XMV(9)`).
pub fn manipulated() -> (v: Vec<VarMeta>)
    ensures
        v.len() == 1,
        v[0].index == 8 && v[0].name == "Stripper steam valve" && v[0].tag == "XMV(9)"
            && v[0].unit == "%" && v[0].kind is Manipulated,
        forall|i: int| 0 <= i < v.len() ==> tag_follows_index(#[trigger] v[i], xmv_prefix()),
{
    proof {
    reveal_strlit("XMV(9)");
    }
    let v = vec![
        VarMeta {
            index: 8,
            name: "Stripper steam valve",
            tag: "XMV(9)",
            unit: "%",
            kind: VarKind::Manipulated,
        },
    ];
    assert(v[0].tag@ =~= numbered(xmv_prefix(), 9));
    v
}

/// The continuous measurements `XMEAS(1)` .. `XMEAS(22)` shown on the operator display.
pub open spec fn xmeas_table_spec() -> Seq<VarMeta> {
    seq![
        VarMeta { index: 0, name: "A Feed", tag: "XMEAS(1)", unit: "kscmh", kind: VarKind::Measurement },
        VarMeta { index: 1, name: "D Feed", tag: "XMEAS(2)", unit: "kg/hr", kind: VarKind::Measurement },
        VarMeta { index: 2, name: "E Feed", tag: "XMEAS(3)", unit: "kg/hr", kind: VarKind::Measurement },
        VarMeta { index: 3, name: "A&C Feed", tag: "XMEAS(4)", unit: "kscmh", kind: VarKind::Measurement },
        VarMeta { index: 4, name: "Recycle Flow", tag: "XMEAS(5)", unit: "kscmh", kind: VarKind::Measurement },
        VarMeta { index: 5, name: "Reactor Feed Rate", tag: "XMEAS(6)", unit: "kscmh", kind: VarKind::Measurement },
        VarMeta { index: 6, name: "Reactor Pressure", tag: "XMEAS(7)", unit: "kPa", kind: VarKind::Measurement },
        VarMeta { index: 7, name: "Reactor Level", tag: "XMEAS(8)", unit: "%", kind: VarKind::Measurement },
        VarMeta { index: 8, name: "Reactor Temperature", tag: "XMEAS(9)", unit: "°C", kind: VarKind::Measurement },
        VarMeta { index: 9, name: "Purge Rate", tag: "XMEAS(10)", unit: "kscmh", kind: VarKind::Measurement },
        VarMeta { index: 10, name: "Sep Temperature", tag: "XMEAS(11)", unit: "°C", kind: VarKind::Measurement },
        VarMeta { index: 11, name: "Sep Level", tag: "XMEAS(12)", unit: "%", kind: VarKind::Measurement },
        VarMeta { index: 12, name: "Sep Pressure", tag: "XMEAS(13)", unit: "kPa", kind: VarKind::Measurement },
        VarMeta { index: 13, name: "Sep Underflow", tag: "XMEAS(14)", unit: "m3/hr", kind: VarKind::Measurement },
        VarMeta { index: 14, name: "Stripper Level", tag: "XMEAS(15)", unit: "%", kind: VarKind::Measurement },
        VarMeta { index: 15, name: "Stripper Pressure", tag: "XMEAS(16)", unit: "kPa", kind: VarKind::Measurement },
        VarMeta { index: 16, name: "Stripper Underflow", tag: "XMEAS(17)", unit: "m3/hr", kind: VarKind::Measurement },
        VarMeta { index: 17, name: "Stripper Temperature", tag: "XMEAS(18)", unit: "°C", kind: VarKind::Measurement },
        VarMeta { index: 18, name: "Stripper Steam Flow", tag: "XMEAS(19)", unit: "kg/hr", kind: VarKind::Measurement },
        VarMeta { index: 19, name: "Compressor Work", tag: "XMEAS(20)", unit: "kW", kind: VarKind::Measurement },
        VarMeta { index: 20, name: "Reactor CW Outlet Temp", tag: "XMEAS(21)", unit: "°C", kind: VarKind::Measurement },
        VarMeta { index: 21, name: "Sep CW Outlet Temp", tag: "XMEAS(22)", unit: "°C", kind: VarKind::Measurement },
    ]
}

/// Entry `i` of the table describes vector position `i` and is tagged `xmeas_prefix(i + 1)`.
pub proof fn lemma_xmeas_table_tags()
    ensures
        forall|i: int| 0 <= i < xmeas_table_spec().len() ==> (#[trigger] xmeas_table_spec()[i]).index == i,
        forall|i: int| 0 <= i < xmeas_table_spec().len() ==> tag_follows_index(#[trigger] xmeas_table_spec()[i], xmeas_prefix()),
{
    reveal_strlit("XMEAS(1)");
    reveal_strlit("XMEAS(2)");
    reveal_strlit("XMEAS(3)");
    reveal_strlit("XMEAS(4)");
    reveal_strlit("XMEAS(5)");
    reveal_strlit("XMEAS(6)");
    reveal_strlit("XMEAS(7)");
    reveal_strlit("XMEAS(8)");
    reveal_strlit("XMEAS(9)");
    reveal_strlit("XMEAS(10)");
    reveal_strlit("XMEAS(11)");
    reveal_strlit("XMEAS(12)");
    reveal_strlit("XMEAS(13)");
    reveal_strlit("XMEAS(14)");
    reveal_strlit("XMEAS(15)");
    reveal_strlit("XMEAS(16)");
    reveal_strlit("XMEAS(17)");
    reveal_strlit("XMEAS(18)");
    reveal_strlit("XMEAS(19)");
    reveal_strlit("XMEAS(20)");
    reveal_strlit("XMEAS(21)");
    reveal_strlit("XMEAS(22)");
    reveal_with_fuel(decimal, 2);
    assert(xmeas_table_spec()[0].tag@ =~= numbered(xmeas_prefix(), 1));
    assert(xmeas_table_spec()[1].tag@ =~= numbered(xmeas_prefix(), 2));
    assert(xmeas_table_spec()[2].tag@ =~= numbered(xmeas_prefix(), 3));
    assert(xmeas_table_spec()[3].tag@ =~= numbered(xmeas_prefix(), 4));
    assert(xmeas_table_spec()[4].tag@ =~= numbered(xmeas_prefix(), 5));
    assert(xmeas_table_spec()[5].tag@ =~= numbered(xmeas_prefix(), 6));
    assert(xmeas_table_spec()[6].tag@ =~= numbered(xmeas_prefix(), 7));
    assert(xmeas_table_spec()[7].tag@ =~= numbered(xmeas_prefix(), 8));
    assert(xmeas_table_spec()[8].tag@ =~= numbered(xmeas_prefix(), 9));
    assert(xmeas_table_spec()[9].tag@ =~= numbered(xmeas_prefix(), 10));
    assert(xmeas_table_spec()[10].tag@ =~= numbered(xmeas_prefix(), 11));
    assert(xmeas_table_spec()[11].tag@ =~= numbered(xmeas_prefix(), 12));
    assert(xmeas_table_spec()[12].tag@ =~= numbered(xmeas_prefix(), 13));
    assert(xmeas_table_spec()[13].tag@ =~= numbered(xmeas_prefix(), 14));
    assert(xmeas_table_spec()[14].tag@ =~= numbered(xmeas_prefix(), 15));
    assert(xmeas_table_spec()[15].tag@ =~= numbered(xmeas_prefix(), 16));
    assert(xmeas_table_spec()[16].tag@ =~= numbered(xmeas_prefix(), 17));
    assert(xmeas_table_spec()[17].tag@ =~= numbered(xmeas_prefix(), 18));
    assert(xmeas_table_spec()[18].tag@ =~= numbered(xmeas_prefix(), 19));
    assert(xmeas_table_spec()[19].tag@ =~= numbered(xmeas_prefix(), 20));
    assert(xmeas_table_spec()[20].tag@ =~= numbered(xmeas_prefix(), 21));
    assert(xmeas_table_spec()[21].tag@ =~= numbered(xmeas_prefix(), 22));
}

/// Each row of the measurement table names and measures the TEP variable
/// at its position: row `i` describes `XMEAS(i + 1)` by the name and unit
/// of that variable (row 11 is the separator level, row 14 the stripper
/// level, and so on).
pub proof fn law_xmeas_rows_describe_their_variable()
    ensures
        xmeas_table_spec().len() == 22,
        forall|i: int| 0 <= i < 22 ==> (#[trigger] xmeas_table_spec()[i]).name@ == seq![
            "A Feed"@, "D Feed"@, "E Feed"@, "A&C Feed"@, "Recycle Flow"@, "Reactor Feed Rate"@,
            "Reactor Pressure"@, "Reactor Level"@, "Reactor Temperature"@, "Purge Rate"@,
            "Sep Temperature"@, "Sep Level"@, "Sep Pressure"@, "Sep Underflow"@, "Stripper Level"@,
            "Stripper Pressure"@, "Stripper Underflow"@, "Stripper Temperature"@,
            "Stripper Steam Flow"@, "Compressor Work"@, "Reactor CW Outlet Temp"@,
            "Sep CW Outlet Temp"@,
        ][i],
        forall|i: int| 0 <= i < 22 ==> (#[trigger] xmeas_table_spec()[i]).unit@ == seq![
            "kscmh"@, "kg/hr"@, "kg/hr"@, "kscmh"@, "kscmh"@, "kscmh"@, "kPa"@, "%"@, "°C"@,
            "kscmh"@, "°C"@, "%"@, "kPa"@, "m3/hr"@, "%"@, "kPa"@, "m3/hr"@, "°C"@, "kg/hr"@,
            "kW"@, "°C"@, "°C"@,
        ][i],
        forall|i: int| 0 <= i < 22 ==> (#[trigger] xmeas_table_spec()[i]).kind is Measurement,
{
}

/// The continuous measurements `XMEAS(1)` .. `XMEAS(22)` shown on the operator display.
/// Entry `i` describes vector position `i` and is tagged `XMEAS(i + 1)`.
pub fn xmeas_table() -> (v: Vec<VarMeta>)
    ensures
        v@ == xmeas_table_spec(),
        v.len() == 22,
        forall|i: int| 0 <= i < v.len() ==> (#[trigger] v[i]).index == i,
        forall|i: int| 0 <= i < v.len() ==> tag_follows_index(#[trigger] v[i], xmeas_prefix()),
{
    let v = vec![
        VarMeta { index: 0, name: "A Feed", tag: "XMEAS(1)", unit: "kscmh", kind: VarKind::Measurement },
        VarMeta { index: 1, name: "D Feed", tag: "XMEAS(2)", unit: "kg/hr", kind: VarKind::Measurement },
        VarMeta { index: 2, name: "E Feed", tag: "XMEAS(3)", unit: "kg/hr", kind: VarKind::Measurement },
        VarMeta { index: 3, name: "A&C Feed", tag: "XMEAS(4)", unit: "kscmh", kind: VarKind::Measurement },
        VarMeta { index: 4, name: "Recycle Flow", tag: "XMEAS(5)", unit: "kscmh", kind: VarKind::Measurement },
        VarMeta { index: 5, name: "Reactor Feed Rate", tag: "XMEAS(6)", unit: "kscmh", kind: VarKind::Measurement },
        VarMeta { index: 6, name: "Reactor Pressure", tag: "XMEAS(7)", unit: "kPa", kind: VarKind::Measurement },
        VarMeta { index: 7, name: "Reactor Level", tag: "XMEAS(8)", unit: "%", kind: VarKind::Measurement },
        VarMeta { index: 8, name: "Reactor Temperature", tag: "XMEAS(9)", unit: "°C", kind: VarKind::Measurement },
        VarMeta { index: 9, name: "Purge Rate", tag: "XMEAS(10)", unit: "kscmh", kind: VarKind::Measurement },
        VarMeta { index: 10, name: "Sep Temperature", tag: "XMEAS(11)", unit: "°C", kind: VarKind::Measurement },
        VarMeta { index: 11, name: "Sep Level", tag: "XMEAS(12)", unit: "%", kind: VarKind::Measurement },
        VarMeta { index: 12, name: "Sep Pressure", tag: "XMEAS(13)", unit: "kPa", kind: VarKind::Measurement },
        VarMeta { index: 13, name: "Sep Underflow", tag: "XMEAS(14)", unit: "m3/hr", kind: VarKind::Measurement },
        VarMeta { index: 14, name: "Stripper Level", tag: "XMEAS(15)", unit: "%", kind: VarKind::Measurement },
        VarMeta { index: 15, name: "Stripper Pressure", tag: "XMEAS(16)", unit: "kPa", kind: VarKind::Measurement },
        VarMeta { index: 16, name: "Stripper Underflow", tag: "XMEAS(17)", unit: "m3/hr", kind: VarKind::Measurement },
        VarMeta { index: 17, name: "Stripper Temperature", tag: "XMEAS(18)", unit: "°C", kind: VarKind::Measurement },
        VarMeta { index: 18, name: "Stripper Steam Flow", tag: "XMEAS(19)", unit: "kg/hr", kind: VarKind::Measurement },
        VarMeta { index: 19, name: "Compressor Work", tag: "XMEAS(20)", unit: "kW", kind: VarKind::Measurement },
        VarMeta { index: 20, name: "Reactor CW Outlet Temp", tag: "XMEAS(21)", unit: "°C", kind: VarKind::Measurement },
        VarMeta { index: 21, name: "Sep CW Outlet Temp", tag: "XMEAS(22)", unit: "°C", kind: VarKind::Measurement },
    ];
    proof {
        lemma_xmeas_table_tags();
    }
    v
}

/// The manipulated variables `XMV(1)` .. `XMV(12)` shown on the operator display.
pub open spec fn xmv_table_spec() -> Seq<VarMeta> {
    seq![
        VarMeta { index: 0, name: "D Feed Flow", tag: "XMV(1)", unit: "%", kind: VarKind::Manipulated },
        VarMeta { index: 1, name: "E Feed Flow", tag: "XMV(2)", unit: "%", kind: VarKind::Manipulated },
        VarMeta { index: 2, name: "A Feed Flow", tag: "XMV(3)", unit: "%", kind: VarKind::Manipulated },
        VarMeta { index: 3, name: "A&C Feed Flow", tag: "XMV(4)", unit: "%", kind: VarKind::Manipulated },
        VarMeta { index: 4, name: "Compressor Recycle", tag: "XMV(5)", unit: "%", kind: VarKind::Manipulated },
        VarMeta { index: 5, name: "Purge Valve", tag: "XMV(6)", unit: "%", kind: VarKind::Manipulated },
        VarMeta { index: 6, name: "Sep Pot Liquid Flow", tag: "XMV(7)", unit: "%", kind: VarKind::Manipulated },
        VarMeta { index: 7, name: "Stripper Liquid Product", tag: "XMV(8)", unit: "%", kind: VarKind::Manipulated },
        VarMeta { index: 8, name: "Stripper Steam Valve", tag: "XMV(9)", unit: "%", kind: VarKind::Manipulated },
        VarMeta { index: 9, name: "Reactor CW Flow", tag: "XMV(10)", unit: "%", kind: VarKind::Manipulated },
        VarMeta { index: 10, name: "Condenser CW Flow", tag: "XMV(11)", unit: "%", kind: VarKind::Manipulated },
        VarMeta { index: 11, name: "Agitator Speed", tag: "XMV(12)", unit: "%", kind: VarKind::Manipulated },
    ]
}

/// Entry `i` of the table describes vector position `i` and is tagged `xmv_prefix(i + 1)`.
pub proof fn lemma_xmv_table_tags()
    ensures
        forall|i: int| 0 <= i < xmv_table_spec().len() ==> (#[trigger] xmv_table_spec()[i]).index == i,
        forall|i: int| 0 <= i < xmv_table_spec().len() ==> tag_follows_index(#[trigger] xmv_table_spec()[i], xmv_prefix()),
{
    reveal_strlit("XMV(1)");
    reveal_strlit("XMV(2)");
    reveal_strlit("XMV(3)");
    reveal_strlit("XMV(4)");
    reveal_strlit("XMV(5)");
    reveal_strlit("XMV(6)");
    reveal_strlit("XMV(7)");
    reveal_strlit("XMV(8)");
    reveal_strlit("XMV(9)");
    reveal_strlit("XMV(10)");
    reveal_strlit("XMV(11)");
    reveal_strlit("XMV(12)");
    reveal_with_fuel(decimal, 2);
    assert(xmv_table_spec()[0].tag@ =~= numbered(xmv_prefix(), 1));
    assert(xmv_table_spec()[1].tag@ =~= numbered(xmv_prefix(), 2));
    assert(xmv_table_spec()[2].tag@ =~= numbered(xmv_prefix(), 3));
    assert(xmv_table_spec()[3].tag@ =~= numbered(xmv_prefix(), 4));
    assert(xmv_table_spec()[4].tag@ =~= numbered(xmv_prefix(), 5));
    assert(xmv_table_spec()[5].tag@ =~= numbered(xmv_prefix(), 6));
    assert(xmv_table_spec()[6].tag@ =~= numbered(xmv_prefix(), 7));
    assert(xmv_table_spec()[7].tag@ =~= numbered(xmv_prefix(), 8));
    assert(xmv_table_spec()[8].tag@ =~= numbered(xmv_prefix(), 9));
    assert(xmv_table_spec()[9].tag@ =~= numbered(xmv_prefix(), 10));
    assert(xmv_table_spec()[10].tag@ =~= numbered(xmv_prefix(), 11));
    assert(xmv_table_spec()[11].tag@ =~= numbered(xmv_prefix(), 12));
}

/// Each row of the manipulated-variable table names the TEP valve at its
/// position: row `i` describes `XMV(i + 1)`, in percent of its range.
pub proof fn law_xmv_rows_describe_their_variable()
    ensures
        xmv_table_spec().len() == 12,
        forall|i: int| 0 <= i < 12 ==> (#[trigger] xmv_table_spec()[i]).name@ == seq![
            "D Feed Flow"@, "E Feed Flow"@, "A Feed Flow"@, "A&C Feed Flow"@, "Compressor Recycle"@,
            "Purge Valve"@, "Sep Pot Liquid Flow"@, "Stripper Liquid Product"@,
            "Stripper Steam Valve"@, "Reactor CW Flow"@, "Condenser CW Flow"@, "Agitator Speed"@,
        ][i],
        forall|i: int| 0 <= i < 12 ==> (#[trigger] xmv_table_spec()[i]).unit@ == "%"@,
        forall|i: int| 0 <= i < 12 ==> (#[trigger] xmv_table_spec()[i]).kind is Manipulated,
{
}

/// The manipulated variables `XMV(1)` .. `XMV(12)` shown on the operator display.
/// Entry `i` describes vector position `i` and is tagged `XMV(i + 1)`.
pub fn xmv_table() -> (v: Vec<VarMeta>)
    ensures
        v@ == xmv_table_spec(),
        v.len() == 12,
        forall|i: int| 0 <= i < v.len() ==> (#[trigger] v[i]).index == i,
        forall|i: int| 0 <= i < v.len() ==> tag_follows_index(#[trigger] v[i], xmv_prefix()),
{
    let v = vec![
        VarMeta { index: 0, name: "D Feed Flow", tag: "XMV(1)", unit: "%", kind: VarKind::Manipulated },
        VarMeta { index: 1, name: "E Feed Flow", tag: "XMV(2)", unit: "%", kind: VarKind::Manipulated },
        VarMeta { index: 2, name: "A Feed Flow", tag: "XMV(3)", unit: "%", kind: VarKind::Manipulated },
        VarMeta { index: 3, name: "A&C Feed Flow", tag: "XMV(4)", unit: "%", kind: VarKind::Manipulated },
        VarMeta { index: 4, name: "Compressor Recycle", tag: "XMV(5)", unit: "%", kind: VarKind::Manipulated },
        VarMeta { index: 5, name: "Purge Valve", tag: "XMV(6)", unit: "%", kind: VarKind::Manipulated },
        VarMeta { index: 6, name: "Sep Pot Liquid Flow", tag: "XMV(7)", unit: "%", kind: VarKind::Manipulated },
        VarMeta { index: 7, name: "Stripper Liquid Product", tag: "XMV(8)", unit: "%", kind: VarKind::Manipulated },
        VarMeta { index: 8, name: "Stripper Steam Valve", tag: "XMV(9)", unit: "%", kind: VarKind::Manipulated },
        VarMeta { index: 9, name: "Reactor CW Flow", tag: "XMV(10)", unit: "%", kind: VarKind::Manipulated },
        VarMeta { index: 10, name: "Condenser CW Flow", tag: "XMV(11)", unit: "%", kind: VarKind::Manipulated },
        VarMeta { index: 11, name: "Agitator Speed", tag: "XMV(12)", unit: "%", kind: VarKind::Manipulated },
    ];
    proof {
        lemma_xmv_table_tags();
    }
    v
}

} // verus!
