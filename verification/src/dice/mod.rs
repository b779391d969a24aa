//! The dice engine: the request and result types, and the entry points that
//! parse a request, roll it and render the outcome.


use vstd::prelude::*;
use vstd::string::*;
use crate::text::{int_str, push_nat};

pub mod aliases;
pub mod arith;
pub mod format;
pub mod grammar;
pub mod handlers;
pub mod laws;
pub mod parser;
pub mod pool;
pub mod roller;
pub mod rng;
pub mod systems;


verus! {

/// One dice request: `count` dice of `sides` sides, the modifiers applied in
/// the order written, and the display flags.
#[derive(Debug, PartialEq)]
pub struct DiceRoll {
    pub count: u32,
    pub sides: u32,
    pub modifiers: Vec<Modifier>,
    pub comment: Option<String>,
    pub label: Option<String>,
    pub private: bool,
    pub simple: bool,
    pub no_results: bool,
    pub unsorted: bool,
    /// The text of the request this roll came from, in a multi-roll request.
    pub original_expression: Option<String>,
}

#[derive(Clone, Debug, PartialEq)]
pub enum HeroSystemType {
    /// `hsn`: normal damage.
    Normal,
    /// `hsk`: killing damage.
    Killing,
    /// `hsh`: to-hit roll, 3d6 roll-under.
    Hit,
}

#[derive(Clone, Debug, PartialEq)]
pub enum LaserFeelingsType {
    Lasers,
    Feelings,
}

#[derive(Debug, PartialEq)]
pub enum Modifier {
    Add(i32),
    Subtract(i32),
    Multiply(i32),
    Divide(i32),
    /// `e` or `e#`
    Explode(Option<u32>),
    /// `ie` or `ie#`
    ExplodeIndefinite(Option<u32>),
    /// `i` or `i#`
    Implode(Option<u32>),
    /// `d#`: drop the lowest.
    Drop(u32),
    /// `k#`
    KeepHigh(u32),
    /// `kl#`
    KeepLow(u32),
    /// `km#`
    KeepMiddle(u32),
    /// `adv#`
    Advantage(u32),
    /// `dis#`
    Disadvantage(u32),
    /// `r#`
    Reroll(u32),
    /// `ir#`
    RerollIndefinite(u32),
    /// `rg#`
    RerollGreater(u32),
    /// `irg#`
    RerollGreaterIndefinite(u32),
    /// `t#`
    Target(u32),
    /// `tl#`
    TargetLower(u32),
    /// `t#ds#`
    TargetWithDoubleSuccess(u32, u32),
    /// `tl#ds#`
    TargetLowerWithDoubleSuccess(u32, u32),
    /// `f#`
    Failure(u32),
    /// `b` or `b#`
    Botch(Option<u32>),
    /// `c`: tens cancel ones.
    Cancel,
    AddDice(DiceRoll),
    SubtractDice(DiceRoll),
    MultiplyDice(DiceRoll),
    DivideDice(DiceRoll),
    /// Wrath & Glory: difficulty, total instead of successes, wrath dice.
    WrathGlory(Option<u32>, bool, u32),
    /// `gb` (chart) or `gbs` (straight damage).
    Godbound(bool),
    HeroSystem(HeroSystemType),
    Fudge,
    DarkHeresy,
    SavageWorlds(u32),
    D6System(u32, String),
    Shadowrun(u32),
    /// Net edges and troubles.
    MarvelMultiverse(i32, i32),
    CyberpunkRed,
    CyberpunkRedDamage,
    Witcher,
    CypherSystem(u32),
    BraveNewWorld(u32),
    ConanSkill(u32),
    ConanCombat(u32),
    Silhouette(u32),
    /// Pool size and hunger dice.
    VampireMasquerade5(u32, u32),
    /// Dice count, target and roll type.
    LaserFeelings(u32, u32, LaserFeelingsType),
    Alien,
    AlienStress(u32),
    ForgedDark,
    ForgedDarkZero,
    Daggerheart,
    WildWorlds(Option<u32>),
    MutantsMasterminds,
    /// Stat (default 50) and whether the roll has advantage.
    Mothership(Option<u32>, bool),
    Wfrp(u32),
    PlotDie,
    /// Skill rank and specialization.
    Essence20(u32, bool),
    /// Whether the house is called upon.
    DarkestHouse(bool),
}

#[derive(Clone, Debug, PartialEq)]
pub struct DiceGroup {
    pub _description: String,
    pub rolls: Vec<i32>,
    pub dropped_rolls: Vec<i32>,
    /// `base`, `add`, `subtract`, `multiply`, `divide`, `result`, ...
    pub modifier_type: String,
}

#[derive(Clone, Debug, PartialEq)]
pub struct RollResult {
    pub individual_rolls: Vec<i32>,
    pub kept_rolls: Vec<i32>,
    pub dropped_rolls: Vec<i32>,
    /// Imploded dice, subtracted from the total and never kept or dropped.
    pub implosion_rolls: Vec<i32>,
    pub total: i32,
    pub successes: Option<i32>,
    pub failures: Option<i32>,
    pub botches: Option<i32>,
    pub comment: Option<String>,
    pub label: Option<String>,
    pub notes: Vec<String>,
    pub dice_groups: Vec<DiceGroup>,
    pub original_expression: Option<String>,
    pub simple: bool,
    pub no_results: bool,
    pub private: bool,
    pub godbound_damage: Option<i32>,
    pub fudge_symbols: Option<Vec<String>>,
    pub wng_wrath_die: Option<i32>,
    pub wng_wrath_dice: Option<Vec<i32>>,
    pub wng_icons: Option<i32>,
    pub wng_exalted_icons: Option<i32>,
    pub suppress_comment: bool,
    pub alien_stress_ones: Option<i32>,
    pub alien_stress_level: Option<u32>,
    pub alien_panic_roll: Option<i32>,
    pub fitd_outcome: Option<String>,
    pub fitd_result: Option<String>,
    pub fitd_highest_die: Option<i32>,
    pub plot_symbols: Option<Vec<String>>,
}

/// Why a request could not be parsed or rolled; `message` is the text shown
/// to the user.
#[derive(Clone, Debug, PartialEq)]
pub struct DiceError {
    pub message: String,
}

pub open spec fn err_msg<T>(r: Result<T, DiceError>) -> Seq<char> {
    match r {
        Err(e) => e.message@,
        Ok(_) => Seq::empty(),
    }
}

impl DiceError {
    pub fn new(message: String) -> (e: DiceError)
        ensures
            e.message@ == message@,
    {
        DiceError { message }
    }

    pub fn from_str(message: &str) -> (e: DiceError)
        ensures
            e.message@ == message@,
    {
        DiceError { message: String::from_str(message) }
    }
}

/// Skill-die ladder of Essence20, lowest rank first: (dice, sides).
pub open spec fn essence20_ranks() -> Seq<(u32, u32)> {
    seq![(1u32, 2u32), (1, 4), (1, 6), (1, 8), (1, 10), (1, 12), (2, 8), (3, 6)]
}

pub fn essence20_rank(rank_number: u32) -> (r: (u32, u32))
    requires
        1 <= rank_number <= 8,
    ensures
        r == essence20_ranks()[rank_number - 1],
{
    match rank_number {
        1 => (1, 2),
        2 => (1, 4),
        3 => (1, 6),
        4 => (1, 8),
        5 => (1, 10),
        6 => (1, 12),
        7 => (2, 8),
        _ => (3, 6),
    }
}

/// The rank number (1-based) of `count`d`sides` on the Essence20 ladder.
pub fn essence20_rank_number(count: u32, sides: u32) -> (r: Option<u32>)
    ensures
        r matches Some(n) ==> 1 <= n <= 8 && essence20_ranks()[n - 1] == (count, sides),
        r is None ==> forall|i: int| 0 <= i < 8 ==> essence20_ranks()[i] != (count, sides),
        r == crate::dice::aliases::e20_rank(count, sides),
{
    let mut n: u32 = 1;
    while n <= 8
        invariant
            1 <= n <= 9,
            forall|i: int| 0 <= i < n - 1 ==> essence20_ranks()[i] != (count, sides),
        decreases 9 - n,
    {
        let (c, s) = essence20_rank(n);
        if c == count && s == sides {
            return Some(n);
        }
        n = n + 1;
    }
    assert(essence20_ranks()[0] != (count, sides));
    assert(essence20_ranks()[1] != (count, sides));
    assert(essence20_ranks()[2] != (count, sides));
    assert(essence20_ranks()[3] != (count, sides));
    assert(essence20_ranks()[4] != (count, sides));
    assert(essence20_ranks()[5] != (count, sides));
    assert(essence20_ranks()[6] != (count, sides));
    assert(essence20_ranks()[7] != (count, sides));
    None
}

/// Highest target a WFRP test can carry once difficulty modifiers are folded in.
pub const WFRP_MAX_TARGET: u32 = 200;

pub fn clone_opt_string(o: &Option<String>) -> (r: Option<String>)
    ensures
        r == *o,
{
    match o {
        Some(s) => Some(s.clone()),
        None => None,
    }
}

impl RollResult {
    pub open spec fn is_fresh_for(self, dice: DiceRoll) -> bool {
        &&& self.individual_rolls@.len() == 0
        &&& self.kept_rolls@.len() == 0
        &&& self.dropped_rolls@.len() == 0
        &&& self.implosion_rolls@.len() == 0
        &&& self.notes@.len() == 0
        &&& self.dice_groups@.len() == 0
        &&& self.total == 0
        &&& self.successes is None
        &&& self.failures is None
        &&& self.botches is None
        &&& self.comment == dice.comment
        &&& self.label == dice.label
        &&& self.original_expression == dice.original_expression
        &&& self.simple == dice.simple
        &&& self.no_results == dice.no_results
        &&& self.private == dice.private
        &&& self.godbound_damage is None
        &&& self.fudge_symbols is None
        &&& self.wng_wrath_die is None
        &&& self.wng_wrath_dice is None
        &&& self.wng_icons is None
        &&& self.wng_exalted_icons is None
        &&& !self.suppress_comment
        &&& self.alien_stress_ones is None
        &&& self.alien_stress_level is None
        &&& self.alien_panic_roll is None
        &&& self.fitd_outcome is None
        &&& self.fitd_result is None
        &&& self.fitd_highest_die is None
        &&& self.plot_symbols is None
    }

    pub fn from_dice(dice: &DiceRoll) -> (r: RollResult)
        ensures
            r.is_fresh_for(*dice),
    {
        RollResult {
            individual_rolls: Vec::new(),
            kept_rolls: Vec::new(),
            dropped_rolls: Vec::new(),
            implosion_rolls: Vec::new(),
            total: 0,
            successes: None,
            failures: None,
            botches: None,
            comment: clone_opt_string(&dice.comment),
            label: clone_opt_string(&dice.label),
            notes: Vec::new(),
            dice_groups: Vec::new(),
            original_expression: clone_opt_string(&dice.original_expression),
            simple: dice.simple,
            no_results: dice.no_results,
            private: dice.private,
            godbound_damage: None,
            fudge_symbols: None,
            wng_wrath_die: None,
            wng_wrath_dice: None,
            wng_icons: None,
            wng_exalted_icons: None,
            suppress_comment: false,
            alien_stress_ones: None,
            alien_stress_level: None,
            alien_panic_roll: None,
            fitd_outcome: None,
            fitd_result: None,
            fitd_highest_die: None,
            plot_symbols: None,
        }
    }
}

/// The dice of `v` from `start` up to `end`.
pub fn pool_slice(v: &Vec<i32>, start: usize, end: usize) -> (r: Vec<i32>)
    requires
        start <= end <= v@.len(),
    ensures
        r@ == v@.subrange(start as int, end as int),
{
    let mut r: Vec<i32> = Vec::new();
    let mut i = start;
    while i < end
        invariant
            start <= i <= end,
            end <= v@.len(),
            r@ == v@.subrange(start as int, i as int),
        decreases end - i,
    {
        r.push(v[i]);
        i = i + 1;
        assert(r@ =~= v@.subrange(start as int, i as int));
    }
    r
}

/// Every die lies in `[1, sides]`.
pub open spec fn in_die_range(s: Seq<i32>, sides: int) -> bool {
    forall|i: int| 0 <= i < s.len() ==> 1 <= #[trigger] s[i] <= sides
}

/// The display flags of the request carried over to the result.
pub open spec fn carries_flags(r: RollResult, d: DiceRoll) -> bool {
    &&& r.label == d.label
    &&& r.original_expression == d.original_expression
    &&& r.private == d.private
    &&& r.simple == d.simple
    &&& r.no_results == d.no_results
}

/// The flags of `b` are those of `a`.
pub open spec fn same_flags(a: RollResult, b: RollResult) -> bool {
    &&& a.label == b.label
    &&& a.original_expression == b.original_expression
    &&& a.private == b.private
    &&& a.simple == b.simple
    &&& a.no_results == b.no_results
}

pub open spec fn sides_error(sides: u32) -> Seq<char> {
    "Cannot roll dice with "@ + int_str(sides as int) + " sides"@
}

/// `count`d`sides`, as the text of a dice group.
pub fn dice_desc(count: u64, sides: u64) -> (s: String)
    ensures
        s@ == int_str(count as int) + "d"@ + int_str(sides as int),
{
    let mut s = String::new();
    push_nat(&mut s, count);
    s.append("d");
    push_nat(&mut s, sides);
    s
}

} // verus!
