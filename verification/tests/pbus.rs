use moomoot::pbus::cell::ReceiveCell;
use moomoot::pbus::Bus;
use moomoot::pbus::BusError;
use moomoot::pbus::BusSystem;
use moomoot::pbus::Reader;
use moomoot::traits::Amplitude;

/// Audio amplitudes as double-precision floats, the scalar a real
/// synthesiser runs on.
#[derive(Debug, Clone, Copy, PartialEq)]
struct Amp(f64);

impl Amplitude for Amp {
    // the model functions double the executable ones: nothing here is
    // machine-checked, floating-point addition only approximates the
    // trait's laws
    fn add_spec(self, other: Self) -> Self {
        self.add(other)
    }

    fn mul_spec(self, other: Self) -> Self {
        self.mul(other)
    }

    fn sub_spec(self, other: Self) -> Self {
        self.sub(other)
    }

    fn zero_spec() -> Self {
        Amp(0.0)
    }

    fn one_spec() -> Self {
        Amp(1.0)
    }

    fn add(self, other: Self) -> Self {
        Amp(self.0 + other.0)
    }

    fn mul(self, other: Self) -> Self {
        Amp(self.0 * other.0)
    }

    fn sub(self, other: Self) -> Self {
        Amp(self.0 - other.0)
    }

    fn zero() -> Self {
        Amp(0.0)
    }

    fn one() -> Self {
        Amp(1.0)
    }

    fn add_commutes(_a: Self, _b: Self) {
    }

    fn add_associates(_a: Self, _b: Self, _c: Self) {
    }
}

#[test]
fn test_bus() {
    let mut bus = Bus::new(42.0);

    let r1 = bus.subscribe();

    assert_eq!(42.0, r1.value(&bus));
    bus.publish(1.);
    assert_eq!(1.0, r1.value(&bus));
    assert_eq!(1, bus.sub_count());
    {
        let r2 = bus.subscribe();
        assert_eq!(1.0, r2.value(&bus));
        assert_eq!(2, bus.sub_count());
        bus.unsubscribe(r2);
    }

    bus.publish(2.); // value keeps propagating to the one live reader
    assert_eq!(1, bus.sub_count());
    assert_eq!(2.0, r1.value(&bus));
}

struct Stuff {
    a: Reader,
    b: Reader,
}

impl Stuff {
    fn doit(&self, sys: &BusSystem<Amp>) -> f64 {
        self.a.value_in(sys).0 + self.b.value_in(sys).0
    }
}

#[test]
fn test_bus_system() {
    let mut bus = BusSystem::new();

    let stuff = Stuff { a: bus.sub("a"), b: bus.sub("b") };

    bus.publish("a", Amp(2.0)).unwrap();
    bus.publish("b", Amp(4.0)).unwrap();

    assert_eq!(stuff.doit(&bus), 6.0);

    assert!(bus.publish("b", Amp(5.0)).is_ok());
    assert!(bus.publish("d", Amp(5.0)).is_err());
}

#[test]
fn publish_to_unknown_channel_names_it() {
    let mut bus: BusSystem<Amp> = BusSystem::new();
    match bus.publish("nobody", Amp(1.0)) {
        Err(BusError::NoSuchChannel(name)) => assert_eq!(name, "nobody"),
        _ => panic!("publish to an unknown channel must fail"),
    }
}

#[test]
fn subscribe_sees_default_then_updates() {
    let mut bus: BusSystem<Amp> = BusSystem::new();
    let r = bus.sub("fresh");
    // a fresh channel starts at the scalar's zero
    assert_eq!(r.value_in(&bus), Amp(0.0));
    bus.publish("fresh", Amp(0.25)).unwrap();
    assert_eq!(r.value_in(&bus), Amp(0.25));
    // a later subscriber sees the current value at once
    let r2 = bus.sub("fresh");
    assert_eq!(r2.value_in(&bus), Amp(0.25));
}

#[test]
fn cell_keeps_spare_slot_intact() {
    let mut cell = ReceiveCell::new(7i64);
    assert_eq!(7, cell.read());
    cell.set(9);
    assert_eq!(9, cell.read());
    cell.set(11);
    cell.set(13);
    assert_eq!(13, cell.read());
}
