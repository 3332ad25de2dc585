use tennessee_eastman::metadata::{decimal_string, manipulated, measurements, numbered_string, xmeas_table, xmv_table, VarKind};
use tennessee_eastman::params::Params;

#[test]
fn default_params_are_the_tennessee_eastman_sizes() {
    let p = Params::default();
    assert_eq!(p.n_states, 50);
    assert_eq!(p.n_mv, 12);
    assert_eq!(p.n_dv, 20);
    assert_eq!(p.n_outputs, 41);
}

#[test]
fn decimal_strings() {
    assert_eq!(decimal_string(0), "0");
    assert_eq!(decimal_string(7), "7");
    assert_eq!(decimal_string(10), "10");
    assert_eq!(decimal_string(4096), "4096");
    assert_eq!(numbered_string("XMEAS", 9), "XMEAS(9)");
}

#[test]
fn reactor_temperature_is_xmeas_9_at_index_8() {
    let m = measurements();
    assert_eq!(m.len(), 2);
    assert_eq!(m[0].index, 8);
    assert_eq!(m[0].tag, "XMEAS(9)");
    assert_eq!(m[0].name, "Reactor temperature");
    assert_eq!(m[0].unit, "°C");
    assert!(matches!(m[0].kind, VarKind::Measurement));
    assert_eq!(m[1].index, 6);
    assert_eq!(m[1].tag, "XMEAS(7)");
    let v = manipulated();
    assert_eq!(v.len(), 1);
    assert_eq!(v[0].index, 8);
    assert_eq!(v[0].tag, "XMV(9)");
    assert!(matches!(v[0].kind, VarKind::Manipulated));
}

#[test]
fn display_tables_follow_the_tag_convention() {
    let t = xmeas_table();
    assert_eq!(t.len(), 22);
    for (i, m) in t.iter().enumerate() {
        assert_eq!(m.index, i);
        assert_eq!(m.tag, format!("XMEAS({})", i + 1));
    }
    assert_eq!(t[8].name, "Reactor Temperature");
    assert_eq!(t[21].unit, "°C");
    let v = xmv_table();
    assert_eq!(v.len(), 12);
    for (i, m) in v.iter().enumerate() {
        assert_eq!(m.index, i);
        assert_eq!(m.tag, format!("XMV({})", i + 1));
        assert_eq!(m.unit, "%");
    }
    assert_eq!(v[11].name, "Agitator Speed");
}
