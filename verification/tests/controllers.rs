use tennessee_eastman::controllers::{Controller, ControllerBank, ControllerInfo, ControllerParams, PController};

/// A controller for the tests: writes its constant to its XMV index when enabled.
struct Constant {
    p: PController<f64>,
    out: f64,
}

impl Controller for Constant {
    type Sample = f64;

    fn step(&mut self, _xmeas: &[f64], xmv: &mut [f64]) {
        if self.p.enabled {
            xmv[self.p.xmv_idx] = self.out;
        }
    }

    fn id(&self) -> &str {
        self.p.id()
    }

    fn info(&self) -> ControllerInfo<f64> {
        self.p.info()
    }

    fn update(&mut self, params: &ControllerParams<f64>) {
        self.p.update(params)
    }
}

fn constant(id: &str, xmv_idx: usize, out: f64) -> Constant {
    Constant { p: PController::new(id, 0, xmv_idx, 1.0, 0.0, 0.0), out }
}

fn no_change() -> ControllerParams<f64> {
    ControllerParams { kp: None, ki: None, kd: None, setpoint: None, bias: None, enabled: None }
}

#[test]
fn p_controller_new_is_enabled_with_given_parameters() {
    let c = PController::new("pressure_reactor", 6, 5, 0.1, 2705.0, 40.06);
    assert_eq!(c.id, "pressure_reactor");
    assert_eq!(c.id(), "pressure_reactor");
    assert_eq!(c.xmeas_idx, 6);
    assert_eq!(c.xmv_idx, 5);
    assert_eq!(c.kp, 0.1);
    assert_eq!(c.setpoint, 2705.0);
    assert_eq!(c.bias, 40.06);
    assert!(c.enabled);
}

#[test]
fn p_controller_info_reports_type_p_without_integral_or_derivative_action() {
    let c = PController::new("level_separator", 11, 6, 1.0, 50.0, 38.1);
    let i = c.info();
    assert_eq!(i.id, "level_separator");
    assert_eq!(i.controller_type, "P");
    assert_eq!(i.xmeas_idx, 11);
    assert_eq!(i.xmv_idx, 6);
    assert_eq!(i.kp, 1.0);
    assert_eq!(i.ki, 0.0);
    assert_eq!(i.kd, 0.0);
    assert_eq!(i.setpoint, 50.0);
    assert_eq!(i.bias, 38.1);
    assert!(i.enabled);
}

#[test]
fn p_controller_update_changes_only_given_supported_fields() {
    let mut c = PController::new("level_stripper", 14, 7, 1.0, 50.0, 46.5);
    c.update(&ControllerParams { kp: Some(2.0), ki: Some(9.0), kd: Some(9.0), setpoint: None, bias: Some(40.0), enabled: Some(false) });
    assert_eq!(c.kp, 2.0);
    assert_eq!(c.setpoint, 50.0);
    assert_eq!(c.bias, 40.0);
    assert!(!c.enabled);
    assert_eq!(c.id, "level_stripper");
    assert_eq!(c.xmeas_idx, 14);
    assert_eq!(c.xmv_idx, 7);
    c.update(&no_change());
    assert_eq!(c.kp, 2.0);
    assert!(!c.enabled);
    c.update(&ControllerParams { kp: None, ki: None, kd: None, setpoint: Some(55.0), bias: None, enabled: Some(true) });
    assert_eq!(c.setpoint, 55.0);
    assert!(c.enabled);
}

#[test]
fn bank_applies_controllers_in_order_last_one_wins() {
    let mut bank: ControllerBank<Constant> = ControllerBank::default();
    bank.add(constant("a", 1, 10.0));
    bank.add(constant("b", 2, 20.0));
    bank.add(constant("c", 1, 30.0));
    let xmeas = [0.0; 3];
    let mut xmv = [0.0; 3];
    bank.step(&xmeas, &mut xmv);
    assert_eq!(xmv, [0.0, 30.0, 20.0]);
}

#[test]
fn bank_get_finds_the_first_controller_with_the_id() {
    let mut bank: ControllerBank<Constant> = ControllerBank::default();
    assert!(bank.get("a").is_none());
    bank.add(constant("a", 1, 10.0));
    bank.add(constant("a", 2, 20.0));
    assert_eq!(bank.get("a").unwrap().out, 10.0);
    assert!(bank.get("b").is_none());
}

#[test]
fn bank_get_mut_changes_the_addressed_controller_only() {
    let mut bank: ControllerBank<Constant> = ControllerBank::default();
    bank.add(constant("a", 0, 1.0));
    bank.add(constant("b", 1, 2.0));
    bank.get_mut("b").unwrap().update(&ControllerParams { kp: None, ki: None, kd: None, setpoint: None, bias: None, enabled: Some(false) });
    assert!(bank.get_mut("zzz").is_none());
    let mut xmv = [0.0; 2];
    bank.step(&[0.0; 2], &mut xmv);
    assert_eq!(xmv, [1.0, 0.0]);
    let infos = bank.list();
    assert_eq!(infos.len(), 2);
    assert_eq!(infos[0].id, "a");
    assert!(infos[0].enabled);
    assert_eq!(infos[1].id, "b");
    assert!(!infos[1].enabled);
}

#[test]
fn bank_remove_drops_every_controller_with_the_id() {
    let mut bank: ControllerBank<Constant> = ControllerBank::default();
    bank.add(constant("a", 0, 1.0));
    bank.add(constant("b", 1, 2.0));
    bank.add(constant("a", 2, 3.0));
    assert!(bank.remove("a"));
    assert!(bank.get("a").is_none());
    assert_eq!(bank.list().len(), 1);
    assert_eq!(bank.list()[0].id, "b");
    assert!(!bank.remove("a"));
    assert!(!bank.remove("nope"));
    assert_eq!(bank.list().len(), 1);
}

#[test]
fn empty_bank_lists_nothing_and_leaves_xmv() {
    let mut bank: ControllerBank<Constant> = ControllerBank::default();
    assert!(bank.list().is_empty());
    let mut xmv = [5.0; 2];
    bank.step(&[0.0; 2], &mut xmv);
    assert_eq!(xmv, [5.0, 5.0]);
}

#[test]
fn p_controller_writes_its_xmv_index_only_when_enabled() {
    let mut c = PController::new("pressure_reactor", 6, 5, 0.1, 2705.0, 40.06);
    assert_eq!(c.output_index(), Some(5));
    c.update(&ControllerParams { kp: None, ki: None, kd: None, setpoint: None, bias: None, enabled: Some(false) });
    assert_eq!(c.output_index(), None);
}

#[test]
fn bank_lists_each_controller_info_in_order_under_its_id() {
    let mut bank: ControllerBank<Constant> = ControllerBank::default();
    bank.add(constant("pressure_reactor", 5, 1.0));
    bank.add(constant("level_separator", 6, 2.0));
    assert_eq!(bank.get("pressure_reactor").unwrap().p.xmv_idx, 5);
    assert_eq!(bank.get("level_separator").unwrap().p.xmv_idx, 6);
    let infos = bank.list();
    assert_eq!(infos[0].id, "pressure_reactor");
    assert_eq!(infos[0].xmv_idx, 5);
    assert_eq!(infos[1].id, "level_separator");
    assert_eq!(infos[1].xmv_idx, 6);
    assert_eq!(infos[1].controller_type, "P");
}

#[test]
fn bank_lookups_use_the_current_identifier() {
    let mut bank: ControllerBank<Constant> = ControllerBank::default();
    bank.add(constant("old_name", 3, 1.0));
    bank.get_mut("old_name").unwrap().p.id = String::from("new_name");
    assert!(bank.get("old_name").is_none());
    assert_eq!(bank.get("new_name").unwrap().p.xmv_idx, 3);
    assert!(!bank.remove("old_name"));
    assert!(bank.remove("new_name"));
    assert!(bank.list().is_empty());
}

#[test]
fn disabled_controller_leaves_xmv() {
    let mut c = constant("a", 0, 9.0);
    c.update(&ControllerParams { kp: None, ki: None, kd: None, setpoint: None, bias: None, enabled: Some(false) });
    assert!(!c.info().enabled);
    let mut xmv = [1.0, 2.0];
    c.step(&[0.0; 2], &mut xmv);
    assert_eq!(xmv, [1.0, 2.0]);
}
