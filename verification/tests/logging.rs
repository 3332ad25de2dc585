use tennessee_eastman::metadata::{xmeas_table, xmv_table};
use tennessee_eastman::csv::{csv_columns, csv_header, CsvColumn};
use tennessee_eastman::sensor::{IdealSensor, Sensor};
use tennessee_eastman::snapshot::{any_active, Alarm};

#[test]
fn log_columns_and_header() {
    let cols = csv_columns();
    assert_eq!(cols.len(), 1 + 22 + 12 + 1 + 10 + 8);
    assert!(matches!(cols[0], CsvColumn::Time));
    assert!(matches!(cols[1], CsvColumn::Xmeas(0)));
    assert!(matches!(cols[22], CsvColumn::Xmeas(21)));
    assert!(matches!(cols[23], CsvColumn::Xmv(0)));
    assert!(matches!(cols[35], CsvColumn::DerivNorm));
    assert!(matches!(cols[36], CsvColumn::State(0)));
    assert!(matches!(cols[46], CsvColumn::State(27)));
    assert!(matches!(cols[53], CsvColumn::State(34)));

    let mut expected = String::from("t_h");
    for i in 1..=22 {
        expected.push_str(&format!(",XMEAS({})", i));
    }
    for i in 1..=12 {
        expected.push_str(&format!(",XMV({})", i));
    }
    expected.push_str(",deriv_norm");
    for i in 0..10 {
        expected.push_str(&format!(",YY[{}]", i));
    }
    for i in 27..35 {
        expected.push_str(&format!(",YY[{}]", i));
    }
    assert_eq!(csv_header(&cols), expected);
}

#[test]
fn column_names() {
    assert_eq!(CsvColumn::Time.name(), "t_h");
    assert_eq!(CsvColumn::Xmeas(8).name(), "XMEAS(9)");
    assert_eq!(CsvColumn::Xmv(11).name(), "XMV(12)");
    assert_eq!(CsvColumn::DerivNorm.name(), "deriv_norm");
    assert_eq!(CsvColumn::State(34).name(), "YY[34]");
    assert_eq!(csv_header(&[]), "");
    assert_eq!(csv_header(&[CsvColumn::State(0)]), "YY[0]");
}

#[test]
fn any_alarm_is_active() {
    assert!(!any_active(&[]));
    let quiet = Alarm { name: "reactor_pressure_high", active: false };
    let loud = Alarm { name: "reactor_level_low", active: true };
    assert!(!any_active(&[quiet, quiet]));
    assert!(any_active(&[quiet, loud]));
    assert!(any_active(&[loud]));
}

#[test]
fn ideal_sensor_reports_the_physical_value() {
    let mut s = IdealSensor;
    assert_eq!(s.measure(42.5_f64, 0.001), 42.5);
    assert_eq!(Sensor::<i64>::measure(&mut s, -3, 1), -3);
}

#[test]
fn log_header_uses_the_display_tags() {
    let cols = csv_columns();
    let header = csv_header(&cols);
    let fields: Vec<&str> = header.split(',').collect();
    let xmeas = xmeas_table();
    let xmv = xmv_table();
    for i in 0..22 {
        assert_eq!(fields[1 + i], xmeas[i].tag);
    }
    for i in 0..12 {
        assert_eq!(fields[23 + i], xmv[i].tag);
    }
}
