use moomoot::calc::CalcBinOp;
use moomoot::calc::CalcParam;
use moomoot::params::BusParam;
use moomoot::params::ParamValue;
use moomoot::params::Parametrized;
use moomoot::pbus::BusSystem;
use moomoot::pbus::ChannelsView;
use moomoot::traits::Amplitude;

/// Audio amplitudes as double-precision floats.
#[derive(Debug, Clone, Copy, PartialEq)]
struct Amp(f64);

impl Amplitude for Amp {
    // the model functions double the executable ones: nothing here is
    // machine-checked, floating-point addition only approximates the
    // trait's laws
    fn add_spec(self, other: Self) -> Self {
        Amp(self.0 + other.0)
    }

    fn mul_spec(self, other: Self) -> Self {
        Amp(self.0 * other.0)
    }

    fn sub_spec(self, other: Self) -> Self {
        Amp(self.0 - other.0)
    }

    fn zero_spec() -> Self {
        Amp(0.0)
    }

    fn one_spec() -> Self {
        Amp(1.0)
    }

    fn add(self, other: Self) -> Self {
        Amp(self.0 + other.0)
    }

    fn mul(self, other: Self) -> Self {
        Amp(self.0 * other.0)
    }

    fn sub(self, other: Self) -> Self {
        Amp(self.0 - other.0)
    }

    fn zero() -> Self {
        Amp(0.0)
    }

    fn one() -> Self {
        Amp(1.0)
    }

    fn add_commutes(_a: Self, _b: Self) {
    }

    fn add_associates(_a: Self, _b: Self, _c: Self) {
    }
}

/// the knobs a unit under test carries.
struct SomeParams {
    a: ParamValue<Amp>,
    b: ParamValue<Amp>,
}

impl SomeParams {
    fn new() -> SomeParams {
        SomeParams { a: ParamValue::default(Amp(42.0)), b: ParamValue::default(Amp(77.0)) }
    }

    fn a(mut self, v: ParamValue<Amp>) -> SomeParams {
        self.a = v;
        self
    }

    fn b(mut self, v: ParamValue<Amp>) -> SomeParams {
        self.b = v;
        self
    }
}

struct Chombier(SomeParams);

impl Chombier {
    fn new() -> Chombier {
        Chombier(SomeParams::new())
    }

    fn tic(&self, buses: &BusSystem<Amp>) -> f64 {
        self.0.a.value(buses).0 + self.0.b.value(buses).0
    }
}

impl Parametrized<Amp> for Chombier {
    fn params_wf(&self, _v: ChannelsView<Amp>) -> bool {
        true
    }

    fn connected(&self, _v: ChannelsView<Amp>) -> bool {
        true
    }

    fn connect_spec(&self, v: ChannelsView<Amp>, _default: Amp) -> (Self, ChannelsView<Amp>) {
        (Chombier::new(), v)
    }

    fn connect_parameters(&mut self, buses: &mut BusSystem<Amp>) {
        self.0.a.connect(buses);
        self.0.b.connect(buses);
    }

    fn connected_monotone(&self, _v1: ChannelsView<Amp>, _v2: ChannelsView<Amp>) {
    }
}

#[test]
fn test_default_values() {
    let buses: BusSystem<Amp> = BusSystem::new();
    let p = SomeParams::new().b(ParamValue::constant(Amp(5.0)));

    assert_eq!(Amp(42.0), p.a.value(&buses));
    assert_eq!(Amp(5.0), p.b.value(&buses));
}

#[test]
fn test_connection() {
    let mut bus: BusSystem<Amp> = BusSystem::new();
    let c = Chombier::new();
    assert_eq!(c.tic(&bus), 119.0);

    let mut cc = Chombier(SomeParams::new().a(ParamValue::constant(Amp(2.0))).b(
        ParamValue::bus("bite"),
    ));
    cc.connect_parameters(&mut bus);
    bus.publish("bite", Amp(2.0)).unwrap();
    assert_eq!(cc.tic(&bus), 4.0);
    bus.publish("bite", Amp(4.0)).unwrap();
    assert_eq!(cc.tic(&bus), 6.0);
}

/// the formula 4.0 * x + 2.0, as the expression reader would build it.
fn four_x_plus_two() -> CalcParam<Amp> {
    CalcParam::Node(
        CalcBinOp::Add,
        Box::new(CalcParam::Node(
            CalcBinOp::Mult,
            Box::new(CalcParam::Cst(Amp(4.0))),
            Box::new(CalcParam::BusValue(BusParam::NotConnected("x".to_string()))),
        )),
        Box::new(CalcParam::Cst(Amp(2.0))),
    )
}

#[test]
fn test_param_with_calc() {
    let mut c = Chombier(SomeParams::new().a(ParamValue::formula(four_x_plus_two())));

    let mut bus: BusSystem<Amp> = BusSystem::new();
    c.connect_parameters(&mut bus);
    bus.publish("x", Amp(2.)).unwrap();
    assert_eq!(c.tic(&bus), 77.0 + 10.0);

    bus.publish("x", Amp(3.)).unwrap();
    assert_eq!(c.tic(&bus), 77.0 + 14.0);
}

#[test]
fn formula_subtraction_counts_too() {
    // x - 1.5, published x = 2.0, reads 0.5
    let mut bus: BusSystem<Amp> = BusSystem::new();
    let mut p: ParamValue<Amp> = ParamValue::formula(CalcParam::Node(
        CalcBinOp::Sub,
        Box::new(CalcParam::BusValue(BusParam::NotConnected("x".to_string()))),
        Box::new(CalcParam::Cst(Amp(1.5))),
    ));
    p.connect(&mut bus);
    bus.publish("x", Amp(2.0)).unwrap();
    assert_eq!(p.value(&bus), Amp(0.5));
}
