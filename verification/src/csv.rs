//! Column layout of the simulation log (CSV). The header and every row are
//! written from the same column list, so a row's field `k` is always the
//! variable that the header's field `k` names.
use vstd::prelude::*;
use crate::metadata::{
    decimal, decimal_string, lemma_xmeas_table_tags, lemma_xmv_table_tags, numbered, numbered_string,
    xmeas_prefix, xmeas_table_spec, xmv_prefix, xmv_table_spec, tag_follows_index,
};

verus! {

/// One column of the simulation log. Indices are 0-based.
#[derive(Clone, Copy, Debug)]
pub enum CsvColumn {
    /// Simulated time in hours.
    Time,
    /// Measurement `xmeas[i]`, headed `XMEAS(i + 1)`.
    Xmeas(usize),
    /// Manipulated variable `xmv[i]`, headed `XMV(i + 1)`.
    Xmv(usize),
    /// The integrator's derivative-norm diagnostic.
    DerivNorm,
    /// Internal state `state[i]`, headed `YY[i]`.
    State(usize),
}

/// The logged columns: time, the 22 continuous measurements, the 12
/// manipulated variables, the derivative norm, then the internal states
/// 0..10 (reactor vapour and energy) and 27..35 (compressor vapour).
pub open spec fn csv_columns_spec() -> Seq<CsvColumn> {
    seq![CsvColumn::Time]
        + Seq::new(22, |i: int| CsvColumn::Xmeas(i as usize))
        + Seq::new(12, |i: int| CsvColumn::Xmv(i as usize))
        + seq![CsvColumn::DerivNorm]
        + Seq::new(10, |i: int| CsvColumn::State(i as usize))
        + Seq::new(8, |i: int| CsvColumn::State((27 + i) as usize))
}

/// The header field of a column.
pub open spec fn column_name_spec(c: CsvColumn) -> Seq<char> {
    match c {
        CsvColumn::Time => seq!['t', '_', 'h'],
        CsvColumn::Xmeas(i) => numbered(xmeas_prefix(), (i + 1) as nat),
        CsvColumn::Xmv(i) => numbered(xmv_prefix(), (i + 1) as nat),
        CsvColumn::DerivNorm => seq!['d', 'e', 'r', 'i', 'v', '_', 'n', 'o', 'r', 'm'],
        CsvColumn::State(i) => seq!['Y', 'Y', '['] + decimal(i as nat) + seq![']'],
    }
}

/// Fields joined by commas.
pub open spec fn comma_joined(fields: Seq<Seq<char>>) -> Seq<char>
    decreases fields.len(),
{
    if fields.len() == 0 {
        Seq::empty()
    } else if fields.len() == 1 {
        fields[0]
    } else {
        comma_joined(fields.drop_last()) + seq![','] + fields.last()
    }
}

/// The header line (without line terminator) for the columns `cols`.
pub open spec fn header_spec(cols: Seq<CsvColumn>) -> Seq<char> {
    comma_joined(cols.map_values(|c: CsvColumn| column_name_spec(c)))
}

/// The logged columns, in order.
pub fn csv_columns() -> (v: Vec<CsvColumn>)
    ensures
        v@ == csv_columns_spec(),
{
    let mut v: Vec<CsvColumn> = Vec::new();
    v.push(CsvColumn::Time);
    let mut i: usize = 0;
    while i < 22
        invariant
            i <= 22,
            v@ == seq![CsvColumn::Time] + Seq::new(i as nat, |k: int| CsvColumn::Xmeas(k as usize)),
        decreases 22 - i,
    {
        v.push(CsvColumn::Xmeas(i));
        i = i + 1;
        assert(v@ =~= seq![CsvColumn::Time] + Seq::new(i as nat, |k: int| CsvColumn::Xmeas(k as usize)));
    }
    let ghost a = v@;
    i = 0;
    while i < 12
        invariant
            i <= 12,
            v@ == a + Seq::new(i as nat, |k: int| CsvColumn::Xmv(k as usize)),
        decreases 12 - i,
    {
        v.push(CsvColumn::Xmv(i));
        i = i + 1;
        assert(v@ =~= a + Seq::new(i as nat, |k: int| CsvColumn::Xmv(k as usize)));
    }
    v.push(CsvColumn::DerivNorm);
    let ghost b = v@;
    i = 0;
    while i < 10
        invariant
            i <= 10,
            v@ == b + Seq::new(i as nat, |k: int| CsvColumn::State(k as usize)),
        decreases 10 - i,
    {
        v.push(CsvColumn::State(i));
        i = i + 1;
        assert(v@ =~= b + Seq::new(i as nat, |k: int| CsvColumn::State(k as usize)));
    }
    let ghost c = v@;
    i = 27;
    while i < 35
        invariant
            27 <= i <= 35,
            v@ == c + Seq::new((i - 27) as nat, |k: int| CsvColumn::State((27 + k) as usize)),
        decreases 35 - i,
    {
        v.push(CsvColumn::State(i));
        i = i + 1;
        assert(v@ =~= c + Seq::new((i - 27) as nat, |k: int| CsvColumn::State((27 + k) as usize)));
    }
    assert(v@ =~= csv_columns_spec());
    v
}

impl CsvColumn {
    /// The header field of the column, such as `XMEAS(9)` for `Xmeas(8)`.
    pub fn name(&self) -> (s: String)
        requires
            match *self {
                CsvColumn::Xmeas(i) => i < usize::MAX,
                CsvColumn::Xmv(i) => i < usize::MAX,
                _ => true,
            },
        ensures
            s@ == column_name_spec(*self),
    {
        proof {
            reveal_strlit("t_h");
            reveal_strlit("XMEAS");
            reveal_strlit("XMV");
            reveal_strlit("deriv_norm");
            reveal_strlit("YY[");
            reveal_strlit("]");
        }
        match *self {
            CsvColumn::Time => String::from_str("t_h"),
            CsvColumn::Xmeas(i) => numbered_string("XMEAS", i + 1),
            CsvColumn::Xmv(i) => numbered_string("XMV", i + 1),
            CsvColumn::DerivNorm => String::from_str("deriv_norm"),
            CsvColumn::State(i) => {
                let mut s = String::from_str("YY[");
                s.append(decimal_string(i).as_str());
                s.append("]");
                s
            },
        }
    }
}

/// The header line (without line terminator) for the columns `cols`.
pub fn csv_header(cols: &[CsvColumn]) -> (s: String)
    requires
        forall|k: int| 0 <= k < cols@.len() ==> match #[trigger] cols@[k] {
            CsvColumn::Xmeas(i) => i < usize::MAX,
            CsvColumn::Xmv(i) => i < usize::MAX,
            _ => true,
        },
    ensures
        s@ == header_spec(cols@),
{
    let ghost names = cols@.map_values(|c: CsvColumn| column_name_spec(c));
    let mut s = String::new();
    let mut k: usize = 0;
    while k < cols.len()
        invariant
            k <= cols@.len(),
            names == cols@.map_values(|c: CsvColumn| column_name_spec(c)),
            forall|j: int| 0 <= j < cols@.len() ==> match #[trigger] cols@[j] {
                CsvColumn::Xmeas(i) => i < usize::MAX,
                CsvColumn::Xmv(i) => i < usize::MAX,
                _ => true,
            },
            s@ == comma_joined(names.take(k as int)),
        decreases cols.len() - k,
    {
        let ghost j = cols@[k as int];
        let ghost before = s@;
        proof {
            reveal_strlit(",");
        }
        if k > 0 {
            s.append(",");
        }
        let name = cols[k].name();
        s.append(name.as_str());
        proof {
            let t = names.take(k + 1);
            assert(t.drop_last() =~= names.take(k as int));
            assert(t.last() == column_name_spec(j));
            if k == 0 {
                assert(s@ =~= comma_joined(t));
            } else {
                assert(s@ =~= before + seq![','] + name@);
                assert(name@ == t.last());
                assert(comma_joined(t) == comma_joined(t.drop_last()) + seq![','] + t.last());
                assert(s@ =~= comma_joined(t));
            }
        }
        k = k + 1;
    }
    assert(names.take(cols@.len() as int) =~= names);
    s
}

/// The log's header names each measurement and manipulated variable by the
/// same tag as the operator display: the column of `xmeas[i]` is headed by
/// the tag of display entry `i`, and likewise for `xmv[i]`.
pub proof fn law_log_header_matches_display_tags()
    ensures
        forall|i: int| 0 <= i < 22 ==>
            column_name_spec(#[trigger] csv_columns_spec()[1 + i]) == xmeas_table_spec()[i].tag@,
        forall|i: int| 0 <= i < 12 ==>
            column_name_spec(#[trigger] csv_columns_spec()[23 + i]) == xmv_table_spec()[i].tag@,
{
    lemma_xmeas_table_tags();
    lemma_xmv_table_tags();
    assert forall|i: int| 0 <= i < 22 implies
        column_name_spec(#[trigger] csv_columns_spec()[1 + i]) == xmeas_table_spec()[i].tag@ by {
        assert(csv_columns_spec()[1 + i] == CsvColumn::Xmeas(i as usize));
        assert(tag_follows_index(xmeas_table_spec()[i], xmeas_prefix()));
    }
    assert forall|i: int| 0 <= i < 12 implies
        column_name_spec(#[trigger] csv_columns_spec()[23 + i]) == xmv_table_spec()[i].tag@ by {
        assert(csv_columns_spec()[23 + i] == CsvColumn::Xmv(i as usize));
        assert(tag_follows_index(xmv_table_spec()[i], xmv_prefix()));
    }
}

} // verus!
