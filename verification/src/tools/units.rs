//! The unit converter's units and conversions.

use vstd::prelude::*;

use crate::i18n::Strings;

verus! {

/// What can be converted.
#[derive(Clone, Copy, PartialEq, Eq, Structural, Debug)]
pub enum Category {
    Length,
    Mass,
    Temperature,
    Area,
    Volume,
    Speed,
    Time,
    Data,
}

/// The categories, in the order in which they are offered.
pub const CATEGORIES: [Category; 8] = [
    Category::Length,
    Category::Mass,
    Category::Temperature,
    Category::Area,
    Category::Volume,
    Category::Speed,
    Category::Time,
    Category::Data,
];

/// A unit. One of it is `num / den` base units, except for temperatures, whose
/// scales do not start at the same point.
#[derive(Clone, Copy, Debug)]
pub struct Unit {
    pub symbol: &'static str,
    pub num: u64,
    pub den: u64,
}

/// The units of a category; the first one is the base unit.
pub open spec fn units_of(category: Category) -> Seq<Unit> {
    match category {
        Category::Length => seq![
            Unit { symbol: "m", num: 1, den: 1 },
            Unit { symbol: "km", num: 1000, den: 1 },
            Unit { symbol: "cm", num: 1, den: 100 },
            Unit { symbol: "mm", num: 1, den: 1000 },
            Unit { symbol: "mile", num: 201168, den: 125 },
            Unit { symbol: "yard", num: 1143, den: 1250 },
            Unit { symbol: "foot", num: 381, den: 1250 },
            Unit { symbol: "inch", num: 127, den: 5000 },
        ],
        Category::Mass => seq![
            Unit { symbol: "kg", num: 1, den: 1 },
            Unit { symbol: "g", num: 1, den: 1000 },
            Unit { symbol: "mg", num: 1, den: 1000000 },
            Unit { symbol: "lb", num: 45359237, den: 100000000 },
            Unit { symbol: "oz", num: 45359237, den: 1600000000 },
            Unit { symbol: "t", num: 1000, den: 1 },
        ],
        Category::Temperature => seq![
            Unit { symbol: "°C", num: 0, den: 1 },
            Unit { symbol: "°F", num: 0, den: 1 },
            Unit { symbol: "K", num: 0, den: 1 },
        ],
        Category::Area => seq![
            Unit { symbol: "m²", num: 1, den: 1 },
            Unit { symbol: "km²", num: 1000000, den: 1 },
            Unit { symbol: "cm²", num: 1, den: 10000 },
            Unit { symbol: "ha", num: 10000, den: 1 },
            Unit { symbol: "acre", num: 316160658, den: 78125 },
            Unit { symbol: "ft²", num: 145161, den: 1562500 },
        ],
        Category::Volume => seq![
            Unit { symbol: "L", num: 1, den: 1 },
            Unit { symbol: "mL", num: 1, den: 1000 },
            Unit { symbol: "m³", num: 1000, den: 1 },
            Unit { symbol: "gal (US)", num: 473176473, den: 125000000 },
            Unit { symbol: "qt (US)", num: 473176473, den: 500000000 },
            Unit { symbol: "cup (US)", num: 473176473, den: 2000000000 },
        ],
        Category::Speed => seq![
            Unit { symbol: "m/s", num: 1, den: 1 },
            Unit { symbol: "km/h", num: 5, den: 18 },
            Unit { symbol: "mph", num: 1397, den: 3125 },
            Unit { symbol: "knot", num: 128611111, den: 250000000 },
        ],
        Category::Time => seq![
            Unit { symbol: "s", num: 1, den: 1 },
            Unit { symbol: "min", num: 60, den: 1 },
            Unit { symbol: "h", num: 3600, den: 1 },
            Unit { symbol: "day", num: 86400, den: 1 },
        ],
        Category::Data => seq![
            Unit { symbol: "B", num: 1, den: 1 },
            Unit { symbol: "KB", num: 1024, den: 1 },
            Unit { symbol: "MB", num: 1048576, den: 1 },
            Unit { symbol: "GB", num: 1073741824, den: 1 },
            Unit { symbol: "TB", num: 1099511627776, den: 1 },
        ],
    }
}

impl Category {
    /// The units of a category.
    pub fn units(self) -> (r: Vec<Unit>)
        ensures
            r@ == units_of(self),
    {
        match self {
            Category::Length => vec![
                Unit { symbol: "m", num: 1, den: 1 },
                Unit { symbol: "km", num: 1000, den: 1 },
                Unit { symbol: "cm", num: 1, den: 100 },
                Unit { symbol: "mm", num: 1, den: 1000 },
                Unit { symbol: "mile", num: 201168, den: 125 },
                Unit { symbol: "yard", num: 1143, den: 1250 },
                Unit { symbol: "foot", num: 381, den: 1250 },
                Unit { symbol: "inch", num: 127, den: 5000 },
            ],
            Category::Mass => vec![
                Unit { symbol: "kg", num: 1, den: 1 },
                Unit { symbol: "g", num: 1, den: 1000 },
                Unit { symbol: "mg", num: 1, den: 1000000 },
                Unit { symbol: "lb", num: 45359237, den: 100000000 },
                Unit { symbol: "oz", num: 45359237, den: 1600000000 },
                Unit { symbol: "t", num: 1000, den: 1 },
            ],
            Category::Temperature => vec![
                Unit { symbol: "°C", num: 0, den: 1 },
                Unit { symbol: "°F", num: 0, den: 1 },
                Unit { symbol: "K", num: 0, den: 1 },
            ],
            Category::Area => vec![
                Unit { symbol: "m²", num: 1, den: 1 },
                Unit { symbol: "km²", num: 1000000, den: 1 },
                Unit { symbol: "cm²", num: 1, den: 10000 },
                Unit { symbol: "ha", num: 10000, den: 1 },
                Unit { symbol: "acre", num: 316160658, den: 78125 },
                Unit { symbol: "ft²", num: 145161, den: 1562500 },
            ],
            Category::Volume => vec![
                Unit { symbol: "L", num: 1, den: 1 },
                Unit { symbol: "mL", num: 1, den: 1000 },
                Unit { symbol: "m³", num: 1000, den: 1 },
                Unit { symbol: "gal (US)", num: 473176473, den: 125000000 },
                Unit { symbol: "qt (US)", num: 473176473, den: 500000000 },
                Unit { symbol: "cup (US)", num: 473176473, den: 2000000000 },
            ],
            Category::Speed => vec![
                Unit { symbol: "m/s", num: 1, den: 1 },
                Unit { symbol: "km/h", num: 5, den: 18 },
                Unit { symbol: "mph", num: 1397, den: 3125 },
                Unit { symbol: "knot", num: 128611111, den: 250000000 },
            ],
            Category::Time => vec![
                Unit { symbol: "s", num: 1, den: 1 },
                Unit { symbol: "min", num: 60, den: 1 },
                Unit { symbol: "h", num: 3600, den: 1 },
                Unit { symbol: "day", num: 86400, den: 1 },
            ],
            Category::Data => vec![
                Unit { symbol: "B", num: 1, den: 1 },
                Unit { symbol: "KB", num: 1024, den: 1 },
                Unit { symbol: "MB", num: 1048576, den: 1 },
                Unit { symbol: "GB", num: 1073741824, den: 1 },
                Unit { symbol: "TB", num: 1099511627776, den: 1 },
            ],
        }
    }
}

/// A scale of temperature: degrees Celsius are the value, less the offset, times
/// `num / den`.
#[derive(Clone, Copy, PartialEq, Eq, Structural, Debug)]
pub struct Scale {
    /// In hundredths of a degree.
    pub offset: u32,
    pub num: u32,
    pub den: u32,
}

/// The scales, in the order of the temperature units.
pub open spec fn scale_of(unit: int) -> Scale {
    if unit == 0 {
        Scale { offset: 0, num: 1, den: 1 }
    } else if unit == 1 {
        Scale { offset: 3200, num: 5, den: 9 }
    } else {
        Scale { offset: 27315, num: 1, den: 1 }
    }
}

/// How a value is converted.
#[derive(Clone, Copy, Debug)]
pub enum Conversion {
    /// Times the first unit's factor, divided by the second one's.
    Linear { from: Unit, to: Unit },
    /// To degrees Celsius by the first scale, and from them by the second one.
    Temperature { from_scale: Scale, to_scale: Scale },
}

/// How a category converts between two of its units; `None` where there is no
/// such unit.
pub open spec fn conversion_of(category: Category, from: int, to: int) -> Option<Conversion> {
    let units = units_of(category);
    if from >= units.len() || to >= units.len() {
        None
    } else if category == Category::Temperature {
        Some(Conversion::Temperature { from_scale: scale_of(from), to_scale: scale_of(to) })
    } else {
        Some(Conversion::Linear { from: units[from], to: units[to] })
    }
}

fn scale(unit: usize) -> (r: Scale)
    ensures
        r == scale_of(unit as int),
{
    if unit == 0 {
        Scale { offset: 0, num: 1, den: 1 }
    } else if unit == 1 {
        Scale { offset: 3200, num: 5, den: 9 }
    } else {
        Scale { offset: 27315, num: 1, den: 1 }
    }
}

/// How to convert from the unit at one index to the unit at another.
pub fn convert(category: Category, from: usize, to: usize) -> (r: Option<Conversion>)
    ensures
        r == conversion_of(category, from as int, to as int),
{
    let units = category.units();
    if from >= units.len() || to >= units.len() {
        return None;
    }
    if category == Category::Temperature {
        Some(Conversion::Temperature { from_scale: scale(from), to_scale: scale(to) })
    } else {
        Some(Conversion::Linear { from: units[from], to: units[to] })
    }
}

/// The name of a category.
pub open spec fn category_name(category: Category, strings: Strings) -> &'static str {
    match category {
        Category::Length => strings.unit_length,
        Category::Mass => strings.unit_mass,
        Category::Temperature => strings.unit_temperature,
        Category::Area => strings.unit_area,
        Category::Volume => strings.unit_volume,
        Category::Speed => strings.unit_speed,
        Category::Time => strings.unit_time,
        Category::Data => strings.unit_data,
    }
}

pub fn category_label(category: Category, strings: &Strings) -> (r: &'static str)
    ensures
        r == category_name(category, *strings),
{
    match category {
        Category::Length => strings.unit_length,
        Category::Mass => strings.unit_mass,
        Category::Temperature => strings.unit_temperature,
        Category::Area => strings.unit_area,
        Category::Volume => strings.unit_volume,
        Category::Speed => strings.unit_speed,
        Category::Time => strings.unit_time,
        Category::Data => strings.unit_data,
    }
}

/// Every category has two units at least, and no factor is zero except for
/// temperatures.
pub proof fn law_units_are_usable(category: Category)
    ensures
        units_of(category).len() >= 2,
        forall|i: int|
            0 <= i < units_of(category).len() ==> (#[trigger] units_of(category)[i]).den > 0 && (
            category == Category::Temperature || units_of(category)[i].num > 0),
{
}

/// The fraction `num / den` after a conversion, again as a fraction. Temperatures
/// are in hundredths of a degree.
pub open spec fn converted(conversion: Conversion, num: int, den: int) -> (int, int) {
    match conversion {
        Conversion::Linear { from, to } => (num * (from.num * to.den), den * (from.den * to.num)),
        Conversion::Temperature { from_scale, to_scale } => {
            let x = from_scale.num * to_scale.den;
            let y = from_scale.den * to_scale.num;
            ((num - from_scale.offset * den) * x + to_scale.offset * (den * y), den * y)
        },
    }
}

/// With `x` and `y` swapped, the second step takes back the first one, which moves
/// from the offset `p` to the offset `q`.
proof fn lemma_undone(num: int, den: int, x: int, y: int, p: int, q: int)
    ensures
        ({
            let there = ((num - p * den) * x + q * (den * y), den * y);
            let back = ((there.0 - q * there.1) * y + p * (there.1 * x), there.1 * x);
            back.0 * den == num * back.1
        }),
{
    let (e, f) = (den * y, (num - p * den) * x);
    let g = e * x;
    assert((f + q * e - q * e) * y + p * g == f * y + p * g);
    assert((f * y + p * g) * den == num * g) by (nonlinear_arith)
        requires
            e == den * y,
            f == (num - p * den) * x,
            g == e * x,
    ;
}

/// Converting there and back gives the value that was put in.
pub proof fn law_conversion_is_undone(category: Category, a: int, b: int, num: int, den: int)
    requires
        0 <= a < units_of(category).len(),
        0 <= b < units_of(category).len(),
        den != 0,
    ensures
        ({
            let there = converted(conversion_of(category, a, b)->0, num, den);
            let back = converted(conversion_of(category, b, a)->0, there.0, there.1);
            back.1 != 0 && back.0 * den == num * back.1
        }),
{
    law_units_are_usable(category);
    let (n, d, p, m, e, q) = if category == Category::Temperature {
        let (s, t) = (scale_of(a), scale_of(b));
        (
            s.num as int,
            s.den as int,
            s.offset as int,
            t.num as int,
            t.den as int,
            t.offset as int,
        )
    } else {
        let (s, t) = (units_of(category)[a], units_of(category)[b]);
        (s.num as int, s.den as int, 0, t.num as int, t.den as int, 0)
    };
    assert(n > 0 && d > 0 && m > 0 && e > 0);
    let (x, y) = (n * e, d * m);
    assert(m * d == y && e * n == x) by (nonlinear_arith)
        requires
            x == n * e,
            y == d * m,
    ;
    assert(x > 0 && y > 0) by (nonlinear_arith)
        requires
            x == n * e,
            y == d * m,
            n > 0,
            d > 0,
            m > 0,
            e > 0,
    ;
    lemma_undone(num, den, x, y, p, q);
    assert(den * y * x != 0) by (nonlinear_arith)
        requires
            den != 0,
            x > 0,
            y > 0,
    ;
    assert((num - 0 * den) * x + 0 * (den * y) == num * x) by (nonlinear_arith);
    let there = num * x;
    assert((there - 0 * (den * y)) * y + 0 * (den * y * x) == there * y) by (nonlinear_arith);
}

/// The unit of a category that has a symbol.
pub open spec fn unit_named(category: Category, symbol: Seq<char>) -> Unit {
    units_of(category)[choose|i: int|
        0 <= i < units_of(category).len() && (#[trigger] units_of(category)[i]).symbol@ == symbol]
}

/// One `a` is `n` of `b`.
pub open spec fn is_worth(a: Unit, n: int, b: Unit) -> bool {
    a.num * b.den == n * (b.num * a.den)
}

/// The unit is the base unit of its category.
pub open spec fn is_base(a: Unit) -> bool {
    a.num == a.den > 0
}

/// One `a` is one `b` in each `c`.
pub open spec fn is_per(a: Unit, b: Unit, c: Unit) -> bool {
    a.num * (b.den * c.num) == a.den * (b.num * c.den)
}

/// One `a` is the square of one `b`.
pub open spec fn is_square_of(a: Unit, b: Unit) -> bool {
    a.num * (b.den * b.den) == a.den * (b.num * b.num)
}

/// The symbols of a category's units, in the order in which they are offered.
pub open spec fn symbols_of(category: Category) -> Seq<Seq<char>> {
    units_of(category).map_values(|u: Unit| u.symbol@)
}

proof fn lemma_named(category: Category, i: int)
    requires
        0 <= i < units_of(category).len(),
    ensures
        unit_named(category, units_of(category)[i].symbol@) == units_of(category)[i],
{
    reveal_strlit("m");
    reveal_strlit("km");
    reveal_strlit("cm");
    reveal_strlit("mm");
    reveal_strlit("mile");
    reveal_strlit("yard");
    reveal_strlit("foot");
    reveal_strlit("inch");
    reveal_strlit("kg");
    reveal_strlit("g");
    reveal_strlit("mg");
    reveal_strlit("lb");
    reveal_strlit("oz");
    reveal_strlit("t");
    reveal_strlit("°C");
    reveal_strlit("°F");
    reveal_strlit("K");
    reveal_strlit("m²");
    reveal_strlit("km²");
    reveal_strlit("cm²");
    reveal_strlit("ha");
    reveal_strlit("acre");
    reveal_strlit("ft²");
    reveal_strlit("L");
    reveal_strlit("mL");
    reveal_strlit("m³");
    reveal_strlit("gal (US)");
    reveal_strlit("qt (US)");
    reveal_strlit("cup (US)");
    reveal_strlit("m/s");
    reveal_strlit("km/h");
    reveal_strlit("mph");
    reveal_strlit("knot");
    reveal_strlit("s");
    reveal_strlit("min");
    reveal_strlit("h");
    reveal_strlit("day");
    reveal_strlit("B");
    reveal_strlit("KB");
    reveal_strlit("MB");
    reveal_strlit("GB");
    reveal_strlit("TB");
    let units = units_of(category);
    let k = choose|k: int|
        0 <= k < units.len() && (#[trigger] units[k]).symbol@ == units[i].symbol@;
    assert(units[i].symbol@ == units[i].symbol@);
    assert(0 <= k < units.len() && units[k].symbol@ == units[i].symbol@);
    assert(units[k].symbol@.len() == units[i].symbol@.len());
    assert(forall|j: int|
        0 <= j < units[i].symbol@.len() ==> #[trigger] units[k].symbol@[j] == units[i].symbol@[j]);
    if units[i].symbol@.len() > 1 {
        assert(units[k].symbol@[1] == units[i].symbol@[1]);
    }
    assert(units[k].symbol@[0] == units[i].symbol@[0]);
    assert(k == i);
}

/// The symbols that are offered, in their order.
pub proof fn law_symbols_are_offered_in_order()
    ensures
        symbols_of(Category::Length) == seq![
            "m"@,
            "km"@,
            "cm"@,
            "mm"@,
            "mile"@,
            "yard"@,
            "foot"@,
            "inch"@,
        ],
        symbols_of(Category::Mass) == seq!["kg"@, "g"@, "mg"@, "lb"@, "oz"@, "t"@],
        symbols_of(Category::Temperature) == seq!["°C"@, "°F"@, "K"@],
        symbols_of(Category::Area) == seq!["m²"@, "km²"@, "cm²"@, "ha"@, "acre"@, "ft²"@],
        symbols_of(Category::Volume) == seq![
            "L"@,
            "mL"@,
            "m³"@,
            "gal (US)"@,
            "qt (US)"@,
            "cup (US)"@,
        ],
        symbols_of(Category::Speed) == seq!["m/s"@, "km/h"@, "mph"@, "knot"@],
        symbols_of(Category::Time) == seq!["s"@, "min"@, "h"@, "day"@],
        symbols_of(Category::Data) == seq!["B"@, "KB"@, "MB"@, "GB"@, "TB"@],
{
}

/// Lengths have their physical values: a kilometre is 1000 metres, a metre 100
/// centimetres or 1000 millimetres; a mile is 1760 yards, a yard 3 feet, a foot 12
/// inches, and 100 inches are 254 centimetres.
pub proof fn law_lengths_have_their_values()
    ensures
        ({
            let unit = |symbol: Seq<char>| unit_named(Category::Length, symbol);
            &&& is_base(unit("m"@))
            &&& is_worth(unit("km"@), 1000, unit("m"@))
            &&& is_worth(unit("m"@), 100, unit("cm"@))
            &&& is_worth(unit("m"@), 1000, unit("mm"@))
            &&& is_worth(unit("mile"@), 1760, unit("yard"@))
            &&& is_worth(unit("yard"@), 3, unit("foot"@))
            &&& is_worth(unit("foot"@), 12, unit("inch"@))
            &&& 100 * (unit("inch"@).num * unit("cm"@).den) == 254 * (unit("cm"@).num * unit(
                "inch"@,
            ).den)
        }),
{
    lemma_named(Category::Length, 0);
    lemma_named(Category::Length, 1);
    lemma_named(Category::Length, 2);
    lemma_named(Category::Length, 3);
    lemma_named(Category::Length, 4);
    lemma_named(Category::Length, 5);
    lemma_named(Category::Length, 6);
    lemma_named(Category::Length, 7);
}

/// Masses have their physical values: a tonne is 1000 kilograms, a kilogram 1000 grams,
/// a gram 1000 milligrams; a pound is 0.45359237 kilograms and 16 ounces.
pub proof fn law_masses_have_their_values()
    ensures
        ({
            let unit = |symbol: Seq<char>| unit_named(Category::Mass, symbol);
            &&& is_base(unit("kg"@))
            &&& is_worth(unit("t"@), 1000, unit("kg"@))
            &&& is_worth(unit("kg"@), 1000, unit("g"@))
            &&& is_worth(unit("g"@), 1000, unit("mg"@))
            &&& is_worth(unit("lb"@), 16, unit("oz"@))
            &&& unit("lb"@).num * 100_000_000 == 45_359_237 * unit("lb"@).den
        }),
{
    lemma_named(Category::Mass, 0);
    lemma_named(Category::Mass, 1);
    lemma_named(Category::Mass, 2);
    lemma_named(Category::Mass, 3);
    lemma_named(Category::Mass, 4);
    lemma_named(Category::Mass, 5);
}

proof fn lemma_square(a: Unit, b: Unit, n: int, d: int, m: int, e: int)
    requires
        a.num == n && a.den == d && b.num == m && b.den == e,
        n * (e * e) == d * (m * m),
    ensures
        is_square_of(a, b),
{
}

/// Areas are the squares of lengths; a hectare is 10000 square metres, and an acre is
/// 43560 square feet.
pub proof fn law_areas_have_their_values()
    ensures
        ({
            let unit = |symbol: Seq<char>| unit_named(Category::Area, symbol);
            let length = |symbol: Seq<char>| unit_named(Category::Length, symbol);
            &&& is_base(unit("m²"@))
            &&& is_square_of(unit("m²"@), length("m"@))
            &&& is_square_of(unit("km²"@), length("km"@))
            &&& is_square_of(unit("cm²"@), length("cm"@))
            &&& is_square_of(unit("ft²"@), length("foot"@))
            &&& is_worth(unit("ha"@), 10000, unit("m²"@))
            &&& is_worth(unit("acre"@), 43560, unit("ft²"@))
        }),
{
    lemma_named(Category::Area, 0);
    lemma_named(Category::Area, 1);
    lemma_named(Category::Area, 2);
    lemma_named(Category::Area, 3);
    lemma_named(Category::Area, 4);
    lemma_named(Category::Area, 5);
    lemma_named(Category::Length, 0);
    lemma_named(Category::Length, 1);
    lemma_named(Category::Length, 2);
    lemma_named(Category::Length, 3);
    lemma_named(Category::Length, 4);
    lemma_named(Category::Length, 5);
    lemma_named(Category::Length, 6);
    lemma_named(Category::Length, 7);
    lemma_square(
        unit_named(Category::Area, "m²"@),
        unit_named(Category::Length, "m"@),
        1,
        1,
        1,
        1,
    );
    lemma_square(
        unit_named(Category::Area, "km²"@),
        unit_named(Category::Length, "km"@),
        1000000,
        1,
        1000,
        1,
    );
    lemma_square(
        unit_named(Category::Area, "cm²"@),
        unit_named(Category::Length, "cm"@),
        1,
        10000,
        1,
        100,
    );
    lemma_square(
        unit_named(Category::Area, "ft²"@),
        unit_named(Category::Length, "foot"@),
        145161,
        1562500,
        381,
        1250,
    );
}

/// Volumes have their physical values: a cubic metre is 1000 litres, a litre 1000
/// millilitres; a gallon is 231 cubic inches, 4 quarts and 16 cups.
pub proof fn law_volumes_have_their_values()
    ensures
        ({
            let unit = |symbol: Seq<char>| unit_named(Category::Volume, symbol);
            let inch = unit_named(Category::Length, "inch"@);
            let gallon = unit("gal (US)"@);
            let (a, b) = (inch.num * inch.num * inch.num, inch.den * inch.den * inch.den);
            &&& is_base(unit("L"@))
            &&& is_worth(unit("m³"@), 1000, unit("L"@))
            &&& is_worth(unit("L"@), 1000, unit("mL"@))
            &&& gallon.num * b == 231 * 1000 * a * gallon.den
            &&& is_worth(gallon, 4, unit("qt (US)"@))
            &&& is_worth(gallon, 16, unit("cup (US)"@))
        }),
{
    lemma_named(Category::Volume, 0);
    lemma_named(Category::Volume, 1);
    lemma_named(Category::Volume, 2);
    lemma_named(Category::Volume, 3);
    lemma_named(Category::Volume, 4);
    lemma_named(Category::Volume, 5);
    lemma_named(Category::Length, 0);
    lemma_named(Category::Length, 1);
    lemma_named(Category::Length, 2);
    lemma_named(Category::Length, 3);
    lemma_named(Category::Length, 4);
    lemma_named(Category::Length, 5);
    lemma_named(Category::Length, 6);
    lemma_named(Category::Length, 7);
    let inch = unit_named(Category::Length, "inch"@);
    let gallon = unit_named(Category::Volume, "gal (US)"@);
    let (a, b) = (inch.num * inch.num * inch.num, inch.den * inch.den * inch.den);
    let (n, d) = (inch.num as int, inch.den as int);
    assert(n == 127 && d == 5000);
    assert(n * n * n == 2_048_383 && d * d * d == 125_000_000_000) by (nonlinear_arith)
        requires
            n == 127,
            d == 5000,
    ;
    let (p, q) = (gallon.num as int, gallon.den as int);
    assert(p * b == 231 * 1000 * a * q) by (nonlinear_arith)
        requires
            p == 473176473,
            q == 125000000,
            a == 2_048_383,
            b == 125_000_000_000,
    ;
}

/// Speeds are lengths in each time: a kilometre per hour is a kilometre in an hour, and
/// a mile per hour is a mile in an hour. A knot is 1852 metres in an hour, to the ninth
/// digit: 0.514444444 metres per second.
pub proof fn law_speeds_have_their_values()
    ensures
        ({
            let unit = |symbol: Seq<char>| unit_named(Category::Speed, symbol);
            let length = |symbol: Seq<char>| unit_named(Category::Length, symbol);
            let time = |symbol: Seq<char>| unit_named(Category::Time, symbol);
            &&& is_base(unit("m/s"@))
            &&& is_per(unit("m/s"@), length("m"@), time("s"@))
            &&& is_per(unit("km/h"@), length("km"@), time("h"@))
            &&& is_per(unit("mph"@), length("mile"@), time("h"@))
            &&& unit("km/h"@).num * 3600 == 1000 * unit("km/h"@).den
            &&& unit("knot"@).num * 1_000_000_000 == 514_444_444 * unit("knot"@).den
        }),
{
    lemma_named(Category::Speed, 0);
    lemma_named(Category::Speed, 1);
    lemma_named(Category::Speed, 2);
    lemma_named(Category::Speed, 3);
    lemma_named(Category::Length, 0);
    lemma_named(Category::Length, 1);
    lemma_named(Category::Length, 2);
    lemma_named(Category::Length, 3);
    lemma_named(Category::Length, 4);
    lemma_named(Category::Length, 5);
    lemma_named(Category::Length, 6);
    lemma_named(Category::Length, 7);
    lemma_named(Category::Time, 0);
    lemma_named(Category::Time, 1);
    lemma_named(Category::Time, 2);
    lemma_named(Category::Time, 3);
}

/// Times have their values: a minute is 60 seconds, an hour 60 minutes, a day 24 hours.
pub proof fn law_times_have_their_values()
    ensures
        ({
            let unit = |symbol: Seq<char>| unit_named(Category::Time, symbol);
            &&& is_base(unit("s"@))
            &&& is_worth(unit("min"@), 60, unit("s"@))
            &&& is_worth(unit("h"@), 60, unit("min"@))
            &&& is_worth(unit("day"@), 24, unit("h"@))
        }),
{
    lemma_named(Category::Time, 0);
    lemma_named(Category::Time, 1);
    lemma_named(Category::Time, 2);
    lemma_named(Category::Time, 3);
}

/// Each unit of data is 1024 of the one before it.
pub proof fn law_data_units_have_their_values()
    ensures
        ({
            let unit = |symbol: Seq<char>| unit_named(Category::Data, symbol);
            &&& is_base(unit("B"@))
            &&& is_worth(unit("KB"@), 1024, unit("B"@))
            &&& is_worth(unit("MB"@), 1024, unit("KB"@))
            &&& is_worth(unit("GB"@), 1024, unit("MB"@))
            &&& is_worth(unit("TB"@), 1024, unit("GB"@))
        }),
{
    lemma_named(Category::Data, 0);
    lemma_named(Category::Data, 1);
    lemma_named(Category::Data, 2);
    lemma_named(Category::Data, 3);
    lemma_named(Category::Data, 4);
}

/// There is a conversion exactly between two units of the category. Apart from
/// temperatures, it keeps the quantity: so much of the one unit is as many base units
/// as what comes out of the other one.
pub proof fn law_conversion_keeps_the_quantity(
    category: Category,
    a: int,
    b: int,
    num: int,
    den: int,
)
    requires
        0 <= a,
        0 <= b,
        den != 0,
    ensures
        conversion_of(category, a, b) is Some <==> a < units_of(category).len() && b < units_of(
            category,
        ).len(),
        conversion_of(category, a, b) matches Some(conversion) ==> {
            let (from, to) = (units_of(category)[a], units_of(category)[b]);
            let r = converted(conversion, num, den);
            if category == Category::Temperature {
                conversion is Temperature
            } else {
                &&& conversion == (Conversion::Linear { from, to })
                &&& r.1 != 0
                &&& (r.0 * to.num) * (den * from.den) == (num * from.num) * (r.1 * to.den)
            }
        },
{
    law_units_are_usable(category);
    if a < units_of(category).len() && b < units_of(category).len() && category
        != Category::Temperature {
        let (from, to) = (units_of(category)[a], units_of(category)[b]);
        lemma_quantity(
            num,
            den,
            from.num as int,
            from.den as int,
            to.num as int,
            to.den as int,
        );
    }
}

proof fn lemma_quantity(num: int, den: int, n: int, d: int, m: int, e: int)
    requires
        den != 0,
        d > 0,
        m > 0,
    ensures
        den * (d * m) != 0,
        ((num * (n * e)) * m) * (den * d) == (num * n) * ((den * (d * m)) * e),
{
    assert(d * m > 0) by (nonlinear_arith)
        requires
            d > 0,
            m > 0,
    ;
    assert(den * (d * m) != 0) by (nonlinear_arith)
        requires
            den != 0,
            d * m > 0,
    ;
    assert(((num * (n * e)) * m) * (den * d) == (num * n) * ((den * (d * m)) * e))
        by (nonlinear_arith);
}

/// Temperatures, in hundredths of a degree: Fahrenheit is nine fifths of Celsius and 32
/// degrees more, and Kelvin is Celsius and 273.15 degrees more; the other way round, and
/// between Fahrenheit and Kelvin, accordingly.
pub proof fn law_temperatures_have_their_values(num: int, den: int)
    requires
        den != 0,
    ensures
        ({
            let via = |a: int, b: int|
                converted(conversion_of(Category::Temperature, a, b)->0, num, den);
            let (cf, fc) = (via(0, 1), via(1, 0));
            let (ck, kc) = (via(0, 2), via(2, 0));
            let (fk, kf) = (via(1, 2), via(2, 1));
            &&& cf.0 * (5 * den) == (9 * num + 16000 * den) * cf.1 && cf.1 != 0
            &&& fc.0 * (9 * den) == (5 * (num - 3200 * den)) * fc.1 && fc.1 != 0
            &&& ck.0 * den == (num + 27315 * den) * ck.1 && ck.1 != 0
            &&& kc.0 * den == (num - 27315 * den) * kc.1 && kc.1 != 0
            &&& fk.0 * (9 * den) == (5 * (num - 3200 * den) + 245835 * den) * fk.1 && fk.1 != 0
            &&& kf.0 * (5 * den) == (9 * (num - 27315 * den) + 16000 * den) * kf.1 && kf.1 != 0
        }),
{
    let via = |a: int, b: int| converted(conversion_of(Category::Temperature, a, b)->0, num, den);
    let (cf, fc) = (via(0, 1), via(1, 0));
    let (ck, kc) = (via(0, 2), via(2, 0));
    let (fk, kf) = (via(1, 2), via(2, 1));
    let (c, f, k) = (scale_of(0), scale_of(1), scale_of(2));
    lemma_offset(c.offset, den);
    lemma_offset(f.offset, den);
    lemma_offset(k.offset, den);
    assert(c.offset * den == 0 && f.offset * den == 3200 * den && k.offset * den == 27315 * den);
    lemma_scaled(c, f, num, den);
    assert(cf.1 == 5 * den && cf.0 == 9 * num + 16000 * den);
    lemma_scaled(f, c, num, den);
    assert(fc.1 == 9 * den && fc.0 == 5 * (num - 3200 * den));
    lemma_scaled(c, k, num, den);
    assert(ck.1 == den && ck.0 == num + 27315 * den);
    lemma_scaled(k, c, num, den);
    assert(kc.1 == den && kc.0 == num - 27315 * den);
    lemma_scaled(f, k, num, den);
    assert(fk.1 == 9 * den && fk.0 == 5 * (num - 3200 * den) + 245835 * den);
    lemma_scaled(k, f, num, den);
    assert(kf.1 == 5 * den && kf.0 == 9 * (num - 27315 * den) + 16000 * den);
}

proof fn lemma_offset(offset: u32, den: int)
    ensures
        offset == 0 ==> offset * den == 0,
        offset == 3200 ==> offset * den == 3200 * den,
        offset == 27315 ==> offset * den == 27315 * den,
{
    assert(offset == 0 ==> offset * den == 0) by (nonlinear_arith);
}

/// The products of two scales' fractions, for the fractions that there are.
proof fn lemma_scaled(s: Scale, t: Scale, num: int, den: int)
    requires
        s.num == 1 && s.den == 1 || s.num == 5 && s.den == 9,
        t.num == 1 && t.den == 1 || t.num == 5 && t.den == 9,
    ensures
        ({
            let c = converted(Conversion::Temperature { from_scale: s, to_scale: t }, num, den);
            let (v, o) = (num - s.offset * den, t.offset * den);
            &&& s.num == 1 && t.num == 1 ==> c.0 == v + o && c.1 == den
            &&& s.num == 1 && t.num == 5 ==> c.0 == 9 * v + 5 * o && c.1 == 5 * den
            &&& s.num == 5 && t.num == 1 ==> c.0 == 5 * v + 9 * o && c.1 == 9 * den
        }),
{
    let (x, y) = (s.num * t.den, s.den * t.num);
    assert(x == 1 && y == 1 || x == 9 && y == 5 || x == 5 && y == 9 || s.num == t.num == 5)
        by (nonlinear_arith)
        requires
            x == s.num * t.den,
            y == s.den * t.num,
            s.num == 1 && s.den == 1 || s.num == 5 && s.den == 9,
            t.num == 1 && t.den == 1 || t.num == 5 && t.den == 9,
    ;
    let (p, q) = (s.offset as int, t.offset as int);
    assert((num - p * den) * x + q * (den * y) == x * (num - p * den) + y * (q * den))
        by (nonlinear_arith);
    assert(den * y == y * den) by (nonlinear_arith);
    let (v, o) = (num - p * den, q * den);
    assert(y == 1 ==> y * o == o && y * den == den) by (nonlinear_arith);
    assert(x == 1 ==> x * v == v) by (nonlinear_arith);
    assert(s.num == 1 && t.num == 5 ==> x == 9 && y == 5) by (nonlinear_arith)
        requires
            x == s.num * t.den,
            y == s.den * t.num,
            s.num == 1 && s.den == 1 || s.num == 5 && s.den == 9,
            t.num == 1 && t.den == 1 || t.num == 5 && t.den == 9,
    ;
    assert(s.num == 5 && t.num == 1 ==> x == 5 && y == 9) by (nonlinear_arith)
        requires
            x == s.num * t.den,
            y == s.den * t.num,
            s.num == 1 && s.den == 1 || s.num == 5 && s.den == 9,
            t.num == 1 && t.den == 1 || t.num == 5 && t.den == 9,
    ;
    assert(s.num == 1 && t.num == 1 ==> x == 1 && y == 1) by (nonlinear_arith)
        requires
            x == s.num * t.den,
            y == s.den * t.num,
            s.num == 1 && s.den == 1 || s.num == 5 && s.den == 9,
            t.num == 1 && t.den == 1 || t.num == 5 && t.den == 9,
    ;
}

/// A conversion between a unit and itself changes nothing.
pub proof fn law_conversion_to_itself(category: Category, a: int, num: int, den: int)
    requires
        0 <= a < units_of(category).len(),
        den != 0,
    ensures
        ({
            let r = converted(conversion_of(category, a, a)->0, num, den);
            r.1 != 0 && r.0 * den == num * r.1
        }),
{
    law_units_are_usable(category);
    let (n, d, p) = if category == Category::Temperature {
        let s = scale_of(a);
        (s.num as int, s.den as int, s.offset as int)
    } else {
        let u = units_of(category)[a];
        (u.num as int, u.den as int, 0)
    };
    let (x, y) = (n * d, d * n);
    assert(x == y && x > 0) by (nonlinear_arith)
        requires
            x == n * d,
            y == d * n,
            n > 0,
            d > 0,
    ;
    assert(den * y != 0) by (nonlinear_arith)
        requires
            den != 0,
            y > 0,
    ;
    assert(((num - p * den) * x + p * (den * y)) * den == num * (den * y)) by (nonlinear_arith)
        requires
            x == y,
    ;
    assert((num * x) * den == num * (den * y)) by (nonlinear_arith)
        requires
            x == y,
    ;
}

} // verus!
