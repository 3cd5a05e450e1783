use elfprobe::constant::{into_constant, Constant, ConstantDef, RangeDef};

// A lookup table to exercise constants against: three plain named
// values and two half-open ranges of environment-specific values,
// written out as a match.
fn dada_from(value: usize) -> Constant<usize> {
    match value {
        0 => Constant::named("TR_DADA", value, Some("Dada fafa")),
        1 => Constant::named("TR_FAFA", value, Some("Fafa gaga")),
        101 => Constant::named("TR_GAGA", value, Some("Gaga haha")),
        0xA0 => Constant::named("TR_LOHAHA", value, Some("Haha jaja")),
        0xA8 => Constant::named("TR_HIHAHA", value, Some("Haha jaja")),
        v if (0xA0..0xA8).contains(&v) => Constant::unknown(value, Some("Haha jaja")),
        0xB0 => Constant::named("TR_LOJAJA", value, Some("Jaja kaka")),
        0xBC => Constant::named("TR_HIJAJA", value, Some("Jaja kaka")),
        v if (0xB0..0xBC).contains(&v) => Constant::unknown(value, Some("Jaja kaka")),
        _ => Constant::unknown(value, None),
    }
}

#[test]
fn named_dada() {
    assert_eq!(
        Constant::<usize>::named("TR_DADA", 0, Some("Dada fafa")),
        dada_from(0_usize),
    );
}

#[test]
fn named_fafa() {
    assert_eq!(
        Constant::<usize>::named("TR_FAFA", 1, Some("Fafa gaga")),
        dada_from(1_usize),
    );
}

#[test]
fn named_gaga() {
    assert_eq!(
        Constant::<usize>::named("TR_GAGA", 101, Some("Gaga haha")),
        dada_from(101),
    );
}

#[test]
fn named_lohaha() {
    assert_eq!(
        Constant::<usize>::named("TR_LOHAHA", 0xA0, Some("Haha jaja")),
        dada_from(0xA0_usize),
    );
}

#[test]
fn named_hijaja() {
    assert_eq!(
        Constant::<usize>::named("TR_HIJAJA", 0xBC, Some("Jaja kaka")),
        dada_from(0xBC_usize),
    );
}

#[test]
fn unknown_haha() {
    assert_eq!(
        Constant::<usize>::unknown(0xA5, Some("Haha jaja")),
        dada_from(0xA5_usize),
    );
}

#[test]
fn unknonw_jaja() {
    assert_eq!(
        Constant::<usize>::unknown(0xBB, Some("Jaja kaka")),
        dada_from(0xBB_usize),
    );
}

#[test]
fn unknown() {
    assert_eq!(Constant::<usize>::unknown(0x3, None), dada_from(0x3_usize));
}

#[test]
fn table_lookup_matches_the_fixture() {
    let singles = [
        ConstantDef { name: "TR_DADA", value: 0, meaning: "Dada fafa" },
        ConstantDef { name: "TR_FAFA", value: 1, meaning: "Fafa gaga" },
        ConstantDef { name: "TR_GAGA", value: 101, meaning: "Gaga haha" },
    ];
    let ranges = [
        RangeDef {
            low_name: "TR_LOHAHA",
            high_name: "TR_HIHAHA",
            low: 0xA0,
            high: 0xA8,
            meaning: "Haha jaja",
        },
        RangeDef {
            low_name: "TR_LOJAJA",
            high_name: "TR_HIJAJA",
            low: 0xB0,
            high: 0xBC,
            meaning: "Jaja kaka",
        },
    ];
    for value in [0u64, 1, 101, 0xA0, 0xA5, 0xA8, 0xB0, 0xBB, 0xBC, 0x3, 0x200] {
        let looked_up = into_constant(&singles, &ranges, value);
        let fixture = dada_from(value as usize);
        assert_eq!(looked_up.name(), fixture.name());
        assert_eq!(looked_up.meaning(), fixture.meaning());
        assert_eq!(looked_up.value, value);
    }
}

#[test]
fn constant_accessors() {
    let named = Constant::<usize>::named("TR_DADA", 0, Some("Dada fafa"));
    assert_eq!(named.name(), "TR_DADA");
    assert_eq!(named.meaning(), "Dada fafa");
    let nameless = Constant::<usize>::unknown(0x3, None);
    assert_eq!(nameless.name(), "Unknown");
    assert_eq!(nameless.meaning(), "");
}

#[test]
fn constant_name_or_value() {
    let named = Constant::<u64>::named("TR_DADA", 0, Some("Dada fafa"));
    assert_eq!(named.name_or_value(), "TR_DADA");
    let nameless = Constant::<u64>::unknown(0x3, None);
    assert_eq!(nameless.name_or_value(), "Unknown (0x3)");
    let wide = Constant::<usize>::unknown(0xBEEF, None);
    assert_eq!(wide.name_or_value(), "Unknown (0xbeef)");
}
