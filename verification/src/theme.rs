//! Official Catppuccin colors, kept in one place for every UI surface.
use vstd::prelude::*;

verus! {

/// The four Catppuccin flavors.
#[derive(Clone, Copy, PartialEq, Eq, Structural, Debug)]
pub enum Theme {
    Mocha,
    Macchiato,
    Frappe,
    Latte,
}

/// Display name of each theme.
pub open spec fn theme_label(t: Theme) -> Seq<char> {
    match t {
        Theme::Mocha => "Mocha"@,
        Theme::Macchiato => "Macchiato"@,
        Theme::Frappe => "Frappe"@,
        Theme::Latte => "Latte"@,
    }
}

/// Command-line name of each theme.
pub open spec fn theme_name(t: Theme) -> Seq<char> {
    match t {
        Theme::Mocha => "mocha"@,
        Theme::Macchiato => "macchiato"@,
        Theme::Frappe => "frappe"@,
        Theme::Latte => "latte"@,
    }
}

/// Position of each theme in [`Theme::ALL`].
pub open spec fn theme_index(t: Theme) -> int {
    match t {
        Theme::Mocha => 0,
        Theme::Macchiato => 1,
        Theme::Frappe => 2,
        Theme::Latte => 3,
    }
}

/// The theme at a position of [`Theme::ALL`].
pub open spec fn theme_at(i: int) -> Theme {
    if i == 0 {
        Theme::Mocha
    } else if i == 1 {
        Theme::Macchiato
    } else if i == 2 {
        Theme::Frappe
    } else {
        Theme::Latte
    }
}

/// The 26 palette colors of a theme as `0xRRGGBB`, in [`Palette`] field order.
pub open spec fn theme_hex(t: Theme) -> Seq<u32> {
    match t {
        Theme::Mocha => seq![
            0xf5e0dcu32, 0xf2cdcd, 0xf5c2e7, 0xcba6f7, 0xf38ba8, 0xeba0ac, 0xfab387, 0xf9e2af, 0xa6e3a1, 0x94e2d5, 0x89dceb, 0x74c7ec, 0x89b4fa, 0xb4befe, 0xcdd6f4, 0xbac2de, 0xa6adc8, 0x9399b2, 0x7f849c, 0x6c7086, 0x585b70, 0x45475a, 0x313244, 0x1e1e2e, 0x181825, 0x11111b,
        ],
        Theme::Macchiato => seq![
            0xf4dbd6u32, 0xf0c6c6, 0xf5bde6, 0xc6a0f6, 0xed8796, 0xee99a0, 0xf5a97f, 0xeed49f, 0xa6da95, 0x8bd5ca, 0x91d7e3, 0x7dc4e4, 0x8aadf4, 0xb7bdf8, 0xcad3f5, 0xb8c0e0, 0xa5adcb, 0x939ab7, 0x8087a2, 0x6e738d, 0x5b6078, 0x494d64, 0x363a4f, 0x24273a, 0x1e2030, 0x181926,
        ],
        Theme::Frappe => seq![
            0xf2d5cfu32, 0xeebebe, 0xf4b8e4, 0xca9ee6, 0xe78284, 0xea999c, 0xef9f76, 0xe5c890, 0xa6d189, 0x81c8be, 0x99d1db, 0x85c1dc, 0x8caaee, 0xbabbf1, 0xc6d0f5, 0xb5bfe2, 0xa5adce, 0x949cbb, 0x838ba7, 0x737994, 0x626880, 0x51576d, 0x414559, 0x303446, 0x292c3c, 0x232634,
        ],
        Theme::Latte => seq![
            0xdc8a78u32, 0xdd7878, 0xea76cb, 0x8839ef, 0xd20f39, 0xe64553, 0xfe640b, 0xdf8e1d, 0x40a02b, 0x179299, 0x04a5e5, 0x209fb5, 0x1e66f5, 0x7287fd, 0x4c4f69, 0x5c5f77, 0x6c6f85, 0x7c7f93, 0x8c8fa1, 0x9ca0b0, 0xacb0be, 0xbcc0cc, 0xccd0da, 0xeff1f5, 0xe6e9ef, 0xdce0e8,
        ],
    }
}

/// A 24-bit color.
#[derive(Clone, Copy, PartialEq, Eq, Structural, Debug)]
pub struct Rgb {
    pub r: u8,
    pub g: u8,
    pub b: u8,
}

/// The color that `0xRRGGBB` names.
pub open spec fn rgb_of(v: u32) -> Rgb {
    Rgb { r: (v >> 16u32) as u8, g: (v >> 8u32) as u8, b: v as u8 }
}

/// Complete official palette; unused accents are intentionally available to callers.
#[derive(Clone, Copy, Debug)]
pub struct Palette {
    pub rosewater: Rgb,
    pub flamingo: Rgb,
    pub pink: Rgb,
    pub mauve: Rgb,
    pub red: Rgb,
    pub maroon: Rgb,
    pub peach: Rgb,
    pub yellow: Rgb,
    pub green: Rgb,
    pub teal: Rgb,
    pub sky: Rgb,
    pub sapphire: Rgb,
    pub blue: Rgb,
    pub lavender: Rgb,
    pub text: Rgb,
    pub subtext1: Rgb,
    pub subtext0: Rgb,
    pub overlay2: Rgb,
    pub overlay1: Rgb,
    pub overlay0: Rgb,
    pub surface2: Rgb,
    pub surface1: Rgb,
    pub surface0: Rgb,
    pub base: Rgb,
    pub mantle: Rgb,
    pub crust: Rgb,
}

/// Each color of `p` is the corresponding entry of `hex`.
pub open spec fn palette_matches(p: Palette, hex: Seq<u32>) -> bool {
    &&& p.rosewater == rgb_of(hex[0])
    &&& p.flamingo == rgb_of(hex[1])
    &&& p.pink == rgb_of(hex[2])
    &&& p.mauve == rgb_of(hex[3])
    &&& p.red == rgb_of(hex[4])
    &&& p.maroon == rgb_of(hex[5])
    &&& p.peach == rgb_of(hex[6])
    &&& p.yellow == rgb_of(hex[7])
    &&& p.green == rgb_of(hex[8])
    &&& p.teal == rgb_of(hex[9])
    &&& p.sky == rgb_of(hex[10])
    &&& p.sapphire == rgb_of(hex[11])
    &&& p.blue == rgb_of(hex[12])
    &&& p.lavender == rgb_of(hex[13])
    &&& p.text == rgb_of(hex[14])
    &&& p.subtext1 == rgb_of(hex[15])
    &&& p.subtext0 == rgb_of(hex[16])
    &&& p.overlay2 == rgb_of(hex[17])
    &&& p.overlay1 == rgb_of(hex[18])
    &&& p.overlay0 == rgb_of(hex[19])
    &&& p.surface2 == rgb_of(hex[20])
    &&& p.surface1 == rgb_of(hex[21])
    &&& p.surface0 == rgb_of(hex[22])
    &&& p.base == rgb_of(hex[23])
    &&& p.mantle == rgb_of(hex[24])
    &&& p.crust == rgb_of(hex[25])
}

/// The color `0xRRGGBB`.
pub fn rgb(v: u32) -> (c: Rgb)
    ensures
        c == rgb_of(v),
{
    Rgb { r: (v >> 16u32) as u8, g: (v >> 8u32) as u8, b: v as u8 }
}

impl Palette {
    /// A palette from 26 `0xRRGGBB` values in field order.
    pub fn from_hex(values: &[u32]) -> (p: Palette)
        requires
            values@.len() == 26,
        ensures
            palette_matches(p, values@),
    {
        Palette {
            rosewater: rgb(values[0]),
            flamingo: rgb(values[1]),
            pink: rgb(values[2]),
            mauve: rgb(values[3]),
            red: rgb(values[4]),
            maroon: rgb(values[5]),
            peach: rgb(values[6]),
            yellow: rgb(values[7]),
            green: rgb(values[8]),
            teal: rgb(values[9]),
            sky: rgb(values[10]),
            sapphire: rgb(values[11]),
            blue: rgb(values[12]),
            lavender: rgb(values[13]),
            text: rgb(values[14]),
            subtext1: rgb(values[15]),
            subtext0: rgb(values[16]),
            overlay2: rgb(values[17]),
            overlay1: rgb(values[18]),
            overlay0: rgb(values[19]),
            surface2: rgb(values[20]),
            surface1: rgb(values[21]),
            surface0: rgb(values[22]),
            base: rgb(values[23]),
            mantle: rgb(values[24]),
            crust: rgb(values[25]),
        }
    }
}

impl Default for Theme {
    /// The launch default.
    fn default() -> (t: Theme)
        ensures
            t == Theme::Mocha,
    {
        Theme::Mocha
    }
}

impl Theme {
    pub const ALL: [Theme; 4] = [Theme::Mocha, Theme::Macchiato, Theme::Frappe, Theme::Latte];

    pub fn label(&self) -> (s: &'static str)
        ensures
            s@ == theme_label(*self),
    {
        match self {
            Theme::Mocha => "Mocha",
            Theme::Macchiato => "Macchiato",
            Theme::Frappe => "Frappe",
            Theme::Latte => "Latte",
        }
    }

    /// The command-line name.
    pub fn name(&self) -> (s: &'static str)
        ensures
            s@ == theme_name(*self),
    {
        match self {
            Theme::Mocha => "mocha",
            Theme::Macchiato => "macchiato",
            Theme::Frappe => "frappe",
            Theme::Latte => "latte",
        }
    }

    /// Position in [`Theme::ALL`].
    pub fn index(self) -> (i: usize)
        ensures
            i == theme_index(self),
            i < 4,
            theme_at(i as int) == self,
    {
        match self {
            Theme::Mocha => 0,
            Theme::Macchiato => 1,
            Theme::Frappe => 2,
            Theme::Latte => 3,
        }
    }

    /// The theme at position `i < 4` of [`Theme::ALL`].
    pub fn at(i: usize) -> (t: Theme)
        requires
            i < 4,
        ensures
            t == theme_at(i as int),
            theme_index(t) == i,
    {
        if i == 0 {
            Theme::Mocha
        } else if i == 1 {
            Theme::Macchiato
        } else if i == 2 {
            Theme::Frappe
        } else {
            Theme::Latte
        }
    }

    /// The theme's official colors.
    pub fn palette(self) -> (p: Palette)
        ensures
            palette_matches(p, theme_hex(self)),
    {
        let values: Vec<u32> = match self {
            Theme::Mocha => vec![
                0xf5e0dcu32, 0xf2cdcd, 0xf5c2e7, 0xcba6f7, 0xf38ba8, 0xeba0ac, 0xfab387, 0xf9e2af, 0xa6e3a1, 0x94e2d5, 0x89dceb, 0x74c7ec, 0x89b4fa, 0xb4befe, 0xcdd6f4, 0xbac2de, 0xa6adc8, 0x9399b2, 0x7f849c, 0x6c7086, 0x585b70, 0x45475a, 0x313244, 0x1e1e2e, 0x181825, 0x11111b,
            ],
            Theme::Macchiato => vec![
                0xf4dbd6u32, 0xf0c6c6, 0xf5bde6, 0xc6a0f6, 0xed8796, 0xee99a0, 0xf5a97f, 0xeed49f, 0xa6da95, 0x8bd5ca, 0x91d7e3, 0x7dc4e4, 0x8aadf4, 0xb7bdf8, 0xcad3f5, 0xb8c0e0, 0xa5adcb, 0x939ab7, 0x8087a2, 0x6e738d, 0x5b6078, 0x494d64, 0x363a4f, 0x24273a, 0x1e2030, 0x181926,
            ],
            Theme::Frappe => vec![
                0xf2d5cfu32, 0xeebebe, 0xf4b8e4, 0xca9ee6, 0xe78284, 0xea999c, 0xef9f76, 0xe5c890, 0xa6d189, 0x81c8be, 0x99d1db, 0x85c1dc, 0x8caaee, 0xbabbf1, 0xc6d0f5, 0xb5bfe2, 0xa5adce, 0x949cbb, 0x838ba7, 0x737994, 0x626880, 0x51576d, 0x414559, 0x303446, 0x292c3c, 0x232634,
            ],
            Theme::Latte => vec![
                0xdc8a78u32, 0xdd7878, 0xea76cb, 0x8839ef, 0xd20f39, 0xe64553, 0xfe640b, 0xdf8e1d, 0x40a02b, 0x179299, 0x04a5e5, 0x209fb5, 0x1e66f5, 0x7287fd, 0x4c4f69, 0x5c5f77, 0x6c6f85, 0x7c7f93, 0x8c8fa1, 0x9ca0b0, 0xacb0be, 0xbcc0cc, 0xccd0da, 0xeff1f5, 0xe6e9ef, 0xdce0e8,
            ],
        };
        assert(values@ =~= theme_hex(self));
        Palette::from_hex(values.as_slice())
    }

    /// The theme whose command-line name is `input` (compared ignoring ASCII
    /// case when `ignore_case`); otherwise the message `invalid variant: <input>`.
    pub fn from_str(input: &str, ignore_case: bool) -> (r: Result<Theme, String>)
        ensures
            r matches Ok(t) ==> names_match(theme_name(t), input@, ignore_case),
            r is Err ==> forall|t: Theme| !names_match(#[trigger] theme_name(t), input@, ignore_case),
            r matches Err(m) ==> m@ == "invalid variant: "@ + input@,
    {
        let mut i: usize = 0;
        while i < 4
            invariant
                i <= 4,
                forall|j: int| 0 <= j < i ==> !names_match(theme_name(#[trigger] theme_at(j)), input@, ignore_case),
            decreases 4 - i,
        {
            let t = Theme::at(i);
            if same_name(t.name(), input, ignore_case) {
                return Ok(t);
            }
            i += 1;
        }
        proof {
            assert forall|t: Theme| !names_match(#[trigger] theme_name(t), input@, ignore_case) by {
                assert(theme_at(theme_index(t)) == t);
            }
        }
        let mut message = String::from_str("invalid variant: ");
        message.append(input);
        Err(message)
    }
}

/// ASCII lowercase of a character.
pub open spec fn ascii_lower(c: char) -> char {
    if 0x41 <= (c as u32) <= 0x5A {
        ((c as u32) + 32) as char
    } else {
        c
    }
}

/// `a` and `b` are the same name, or the same ignoring ASCII case when `ignore_case`.
pub open spec fn names_match(a: Seq<char>, b: Seq<char>, ignore_case: bool) -> bool {
    if ignore_case {
        a.len() == b.len() && forall|i: int| 0 <= i < a.len() ==> ascii_lower(#[trigger] a[i]) == ascii_lower(b[i])
    } else {
        a == b
    }
}

fn lower(c: char) -> (d: char)
    ensures
        d == ascii_lower(c),
{
    let v = c as u32;
    if 0x41 <= v && v <= 0x5A {
        ((v + 32) as u8) as char
    } else {
        c
    }
}

fn same_name(a: &str, b: &str, ignore_case: bool) -> (r: bool)
    ensures
        r == names_match(a@, b@, ignore_case),
{
    let x = crate::text::chars_of(a);
    let y = crate::text::chars_of(b);
    if x.len() != y.len() {
        return false;
    }
    let mut i: usize = 0;
    while i < x.len()
        invariant
            x@ == a@,
            y@ == b@,
            x@.len() == y@.len(),
            i <= x@.len(),
            forall|j: int| 0 <= j < i ==> if ignore_case {
                ascii_lower(#[trigger] x@[j]) == ascii_lower(y@[j])
            } else {
                x@[j] == y@[j]
            },
        decreases x.len() - i,
    {
        let same = if ignore_case {
            lower(x[i]) == lower(y[i])
        } else {
            x[i] == y[i]
        };
        if !same {
            return false;
        }
        i += 1;
    }
    if !ignore_case {
        assert(x@ =~= y@);
    }
    true
}

} // verus!
