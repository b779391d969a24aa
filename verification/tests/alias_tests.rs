use dicemaiden_rs::aliases::{expand_a5e_alias, expand_alias};

fn ex(s: &str) -> Option<String> {
    expand_alias(s)
}

#[test]
fn fixed_aliases() {
    assert_eq!(ex("age").as_deref(), Some("2d6 + 1d6"));
    assert_eq!(ex(" DNDStats ").as_deref(), Some("6 4d6 k3"));
    assert_eq!(ex("dp").as_deref(), Some("1d6 plot"));
    assert_eq!(ex("nothing"), None);
}

#[test]
fn world_of_darkness_family() {
    assert_eq!(ex("4cod").as_deref(), Some("4d10 t8 ie10"));
    assert_eq!(ex("4codr").as_deref(), Some("4d10 t8 ie10 r7"));
    assert_eq!(ex("4cod8 + 2").as_deref(), Some("4d10 t8 ie8 + 2"));
    assert_eq!(ex("4wod8").as_deref(), Some("4d10 f1 t8"));
    assert_eq!(ex("4wod8c").as_deref(), Some("4d10 f1 t8 c"));
}

#[test]
fn count_and_suffix_aliases() {
    assert_eq!(ex("sr6").as_deref(), Some("6d6 t5 shadowrun6"));
    assert_eq!(ex("3df").as_deref(), Some("3d3 fudge"));
    assert_eq!(ex("3wh4+").as_deref(), Some("3d6 t4"));
    assert_eq!(ex("dd34").as_deref(), Some("1d3 * 10 + 1d4"));
    assert_eq!(ex("+d20").as_deref(), Some("2d20 k1"));
    assert_eq!(ex("-d20").as_deref(), Some("2d20 kl1"));
    assert_eq!(ex("+d%").as_deref(), Some("2d10 kl1 * 10 + 1d10 - 10"));
    assert_eq!(ex("3d%").as_deref(), Some("3d100"));
    assert_eq!(ex("sp4t7").as_deref(), Some("4d10 t7 ie10"));
    assert_eq!(ex("6yz").as_deref(), Some("6d6 t6"));
    assert_eq!(ex("snm5").as_deref(), Some("5d6 ie6 t4"));
    assert_eq!(ex("3dp").as_deref(), Some("3d6 plot"));
    assert_eq!(ex("bnw3").as_deref(), Some("3d6 bnw"));
}

#[test]
fn hero_system_fractions() {
    assert_eq!(ex("2.5hsk").as_deref(), Some("2d6 hsk + 1d3"));
    assert_eq!(ex("0.5hsn").as_deref(), Some("1d3 hsn"));
    assert_eq!(ex("3hsn").as_deref(), Some("3d6 hsn"));
    assert_eq!(ex("3hsh").as_deref(), Some("3d6 hsh"));
    assert_eq!(ex("2hsk1").as_deref(), Some("2d6 + 1d3 hsk"));
    assert_eq!(ex("2hsk2"), None);
}

#[test]
fn exalted_pools() {
    assert_eq!(ex("ex5").as_deref(), Some("5d10 t7 t10"));
    assert_eq!(ex("ex5t8").as_deref(), Some("5d10 t8 t10"));
    assert_eq!(ex("ex7d8").as_deref(), Some("7d10 t7ds8"));
    assert_eq!(ex("ex5t8ds10").as_deref(), Some("5d10 t8ds10"));
    assert_eq!(ex("ex10d8t6").as_deref(), Some("10d10 t6ds8"));
    assert_eq!(ex("ex5d6"), None);
    assert_eq!(ex("ex0"), None);
}

#[test]
fn earthdawn_steps() {
    assert_eq!(ex("ed5").as_deref(), Some("1d8 ie"));
    assert_eq!(ex("ed20").as_deref(), Some("1d20 ie + 1d8 ie + 1d6 ie"));
    assert_eq!(ex("ed4e21").as_deref(), Some("1d20 ie + 2d8 ie"));
    assert_eq!(ex("ed51"), None);
}

#[test]
fn godbound_and_wrath_glory() {
    assert_eq!(ex("gb 3d8").as_deref(), Some("3d8 gb"));
    assert_eq!(ex("gbs+5").as_deref(), Some("1d20 gbs+5"));
    assert_eq!(ex("wng 4d6").as_deref(), Some("4d6 wngw1"));
    assert_eq!(ex("wng w2 dn3 4d6").as_deref(), Some("4d6 wngw2dn3"));
}

#[test]
fn open_legend_essence_darkest_house() {
    assert_eq!(ex("ol5").as_deref(), Some("1d20 ie20 + 2d6 ie6"));
    assert_eq!(ex("ol5a2").as_deref(), Some("1d20 ie20 + 2d6 ie6 adv2"));
    assert_eq!(ex("ol0d1").as_deref(), Some("1d20 ie20 dis1"));
    assert_eq!(ex("ess1d8").as_deref(), Some("1d20 ess4"));
    assert_eq!(ex("+ess2d8s").as_deref(), Some("2d20 k1 esss7"));
    assert_eq!(ex("-ess1d10 + 2").as_deref(), Some("2d20 kl1 ess5 +2"));
    assert_eq!(ex("tdh4").as_deref(), Some("2d6 tdh + 4"));
    assert_eq!(ex("tdh4bc -6").as_deref(), Some("2d6 adv1 tdhc - 2"));
}

#[test]
fn year_zero_and_small_pools() {
    assert_eq!(ex("alien4").as_deref(), Some("4d6 alien"));
    assert_eq!(ex("alien4s2").as_deref(), Some("4d6 alien + 2d6 aliens2"));
    assert_eq!(ex("alien4s2p").as_deref(), Some("alien4s3"));
    assert_eq!(ex("ww4c2").as_deref(), Some("4d6 wwc2"));
    assert_eq!(ex("ww4c4"), None);
    assert_eq!(ex("sil3").as_deref(), Some("1d6 sil3"));
    assert_eq!(ex("4d6l").as_deref(), Some("3d6 t4 + 1d6 t4f1ie6"));
    assert_eq!(ex("vtm7h2").as_deref(), Some("7d10 vtm5p7h2"));
    assert_eq!(ex("2lf4f").as_deref(), Some("2d6 lf4f"));
    assert_eq!(ex("fitd0").as_deref(), Some("2d6 fitd0"));
    assert_eq!(ex("fitd11"), None);
}

#[test]
fn marvel_mothership_and_others() {
    assert_eq!(ex("mm").as_deref(), Some("3d6 mm"));
    assert_eq!(ex("mm 2e t").as_deref(), Some("3d6 mme1"));
    assert_eq!(ex("mm e + 3").as_deref(), Some("3d6 mme1 + 3"));
    assert_eq!(ex("+ms45").as_deref(), Some("2d100 ms45a"));
    assert_eq!(ex("ms").as_deref(), Some("1d100 ms"));
    assert_eq!(ex("cpr + 3").as_deref(), Some("1d10 cpr + 3"));
    assert_eq!(ex("cpd3").as_deref(), Some("3d6 cpd"));
    assert_eq!(ex("wit").as_deref(), Some("1d10 wit"));
    assert_eq!(ex("wfrp67 + 20").as_deref(), Some("1d100 wfrp87"));
    assert_eq!(ex("wfrp10 - 40").as_deref(), Some("1d100 wfrp0"));
    assert_eq!(ex("wfrp101"), None);
    assert_eq!(ex("cs 3 + 1").as_deref(), Some("1d20 cs3 + 1"));
    assert_eq!(ex("sw8").as_deref(), Some("2d1 sw8"));
    assert_eq!(ex("sw7"), None);
    assert_eq!(ex("mnm + 5").as_deref(), Some("1d20+5 mnm"));
    assert_eq!(ex("attack - 2").as_deref(), Some("1d20- 2"));
    assert_eq!(ex("conan3cd4").as_deref(), Some("3d20 conan3 4d6 cd4"));
    assert_eq!(ex("conan2tn12f3").as_deref(), Some("2d20 conan2 tn12f3"));
    assert_eq!(ex("d6s4 + 2").as_deref(), Some("1d1 d6s4 + 2"));
    assert_eq!(ex("dheart").as_deref(), Some("2d12 dheart"));
}

#[test]
fn level_up_expertise() {
    assert_eq!(expand_a5e_alias("a5e +5 ex1").as_deref(), Some("1d20+5 + 1d4"));
    assert_eq!(expand_a5e_alias("+A5E ex2").as_deref(), Some("2d20 kh1 + 1d6"));
    assert_eq!(expand_a5e_alias("+a5e +5 ex1").as_deref(), Some("2d20 kh1+5 + 1d4"));
    assert_eq!(expand_a5e_alias("+a5e ex2").as_deref(), Some("2d20 kh1 + 1d6"));
    assert_eq!(expand_a5e_alias("-a5e -1 ex100").as_deref(), Some("2d20 kl1-1 + 1d100"));
    assert_eq!(expand_a5e_alias("a5e ex5"), None);
}

#[test]
fn aliases_are_trimmed_and_lowered_by_unicode_rules() {
    assert_eq!(ex("  ATTACK ").as_deref(), Some("1d20"));
    assert_eq!(ex("\u{a0}attack").as_deref(), Some("1d20"));
    assert_eq!(ex("attack\u{3000}").as_deref(), Some("1d20"));
    assert_eq!(ex("\u{2003}Age\u{2003}").as_deref(), Some("2d6 + 1d6"));
}
