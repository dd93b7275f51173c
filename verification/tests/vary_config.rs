use gear_opt::effect::food::{Food, PotatoLeekSoup, RedLentilSaobosa};
use gear_opt::effect::rune::{Elementalist, Krait, Rune};
use gear_opt::effect::sigil::{Agony, Sigil, Smoldering};
use gear_opt::vary::Vary;

/// A field with a given number of values.
#[derive(Clone, Copy, Debug, PartialEq, Eq)]
struct Dial {
    count: u16,
    value: u16,
}

impl Vary for Dial {
    fn num_fields(&self) -> usize {
        1
    }

    fn num_field_values(&self, _field: usize) -> u16 {
        self.count
    }

    fn get_field(&self, _field: usize) -> u16 {
        self.value
    }

    fn set_field(&mut self, _field: usize, value: u16) {
        self.value = value;
    }
}

/// Two fields of two and three values.
#[derive(Clone, Copy, Debug, PartialEq, Eq)]
struct Pair(u16, u16);

impl Vary for Pair {
    fn num_fields(&self) -> usize {
        2
    }

    fn num_field_values(&self, field: usize) -> u16 {
        if field == 0 { 2 } else { 3 }
    }

    fn get_field(&self, field: usize) -> u16 {
        if field == 0 { self.0 } else { self.1 }
    }

    fn set_field(&mut self, field: usize, value: u16) {
        if field == 0 {
            self.0 = value;
        } else {
            self.1 = value;
        }
    }
}

fn dial(count: u16) -> Dial {
    Dial { count, value: 0 }
}

#[test]
fn empty_tuple_has_no_fields() {
    assert_eq!(().num_fields(), 0);
}

#[test]
fn field_count_is_the_sum() {
    assert_eq!((dial(4),).num_fields(), 1);
    assert_eq!((dial(4), Pair(0, 0)).num_fields(), 3);
    assert_eq!((Pair(0, 0), (), dial(2), Pair(1, 1)).num_fields(), 5);
    let twelve = (
        dial(1), dial(2), dial(3), dial(4), dial(5), dial(6), dial(7), dial(8), dial(9), dial(10),
        dial(11), dial(12),
    );
    assert_eq!(twelve.num_fields(), 12);
    for field in 0..12 {
        assert_eq!(twelve.num_field_values(field), field as u16 + 1);
    }
}

#[test]
fn fields_are_routed_by_prefix_sum() {
    let mut cfg = (Pair(1, 2), dial(7), Pair(0, 1));
    assert_eq!(cfg.num_fields(), 5);
    let arity: Vec<u16> = (0..5).map(|f| cfg.num_field_values(f)).collect();
    assert_eq!(arity, vec![2, 3, 7, 2, 3]);
    let values: Vec<u16> = (0..5).map(|f| cfg.get_field(f)).collect();
    assert_eq!(values, vec![1, 2, 0, 0, 1]);
    cfg.set_field(2, 6);
    cfg.set_field(4, 2);
    cfg.set_field(0, 0);
    assert_eq!(cfg, (Pair(0, 2), Dial { count: 7, value: 6 }, Pair(0, 2)));
    let values: Vec<u16> = (0..5).map(|f| cfg.get_field(f)).collect();
    assert_eq!(values, vec![0, 2, 6, 0, 2]);
}

#[test]
fn setting_a_field_leaves_the_others() {
    let start = (dial(3), Pair(1, 1), dial(5), dial(2), Pair(0, 2));
    for field in 0..start.num_fields() {
        for value in 0..start.num_field_values(field) {
            let mut cfg = start;
            cfg.set_field(field, value);
            for other in 0..start.num_fields() {
                let expected = if other == field { value } else { start.get_field(other) };
                assert_eq!(cfg.get_field(other), expected);
                assert_eq!(cfg.num_field_values(other), start.num_field_values(other));
            }
        }
    }
}

#[test]
fn build_configuration_of_effects() {
    let mut cfg = (
        Rune::Krait(Krait),
        Sigil::Agony(Agony),
        Smoldering,
        Food::PotatoLeekSoup(PotatoLeekSoup),
    );
    assert_eq!(cfg.num_fields(), 4);
    assert_eq!(cfg.num_field_values(0), 2);
    assert_eq!(cfg.num_field_values(2), 1);
    assert_eq!(cfg.get_field(0), 1);
    assert_eq!(cfg.get_field(1), 0);
    cfg.set_field(3, 1);
    cfg.set_field(0, 0);
    assert_eq!(cfg.0, Rune::Elementalist(Elementalist));
    assert_eq!(cfg.3, Food::RedLentilSaobosa(RedLentilSaobosa));
}
