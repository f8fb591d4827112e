use vstd::prelude::*;
use vstd::string::StringExecFns;

verus! {

/// A page of the settings window.
#[derive(Debug, Clone, Copy, PartialEq, Eq, Structural)]
pub enum Category {
    Appearance,
    Display,
    Audio,
    Network,
    Bluetooth,
    Widgets,
    Power,
    System,
}

/// The pages in the order of the sidebar.
pub open spec fn all_categories() -> Seq<Category> {
    seq![
        Category::Appearance,
        Category::Display,
        Category::Audio,
        Category::Network,
        Category::Bluetooth,
        Category::Widgets,
        Category::Power,
        Category::System,
    ]
}

/// A page's position in the sidebar.
pub open spec fn position_of(c: Category) -> int {
    match c {
        Category::Appearance => 0,
        Category::Display => 1,
        Category::Audio => 2,
        Category::Network => 3,
        Category::Bluetooth => 4,
        Category::Widgets => 5,
        Category::Power => 6,
        Category::System => 7,
    }
}

/// The title of a page.
pub open spec fn name_of(c: Category) -> Seq<char> {
    match c {
        Category::Appearance => "Appearance"@,
        Category::Display => "Display"@,
        Category::Audio => "Audio"@,
        Category::Network => "Network"@,
        Category::Bluetooth => "Bluetooth"@,
        Category::Widgets => "Widgets"@,
        Category::Power => "Power"@,
        Category::System => "About"@,
    }
}

/// A page's icon candidates in priority order.
pub open spec fn icon_candidates_of(c: Category) -> Seq<char> {
    match c {
        Category::Appearance => seq!['\u{f1fc}', '\u{f53f}'],
        Category::Display => seq!['\u{f878}', '\u{f108}'],
        Category::Audio => seq!['\u{f028}'],
        Category::Network => seq!['\u{f1eb}'],
        Category::Bluetooth => seq!['\u{f294}'],
        Category::Widgets => seq!['\u{f009}', '\u{f0e8}'],
        Category::Power => seq!['\u{f011}'],
        Category::System => seq!['\u{f05a}', '\u{f129}'],
    }
}

/// The first candidate whose glyph the font has (`available` says so for
/// each, in the same order), or none.
pub open spec fn first_available(cands: Seq<char>, available: Seq<bool>) -> Option<char>
    decreases cands.len(),
{
    if cands.len() == 0 || available.len() == 0 {
        None
    } else if available[0] {
        Some(cands[0])
    } else {
        first_available(cands.skip(1), available.skip(1))
    }
}

/// The sidebar entry: the icon, two spaces and the title; the title alone
/// without an icon.
pub open spec fn label_of(c: Category, icon: Option<char>) -> Seq<char> {
    match icon {
        Some(g) => seq![g, ' ', ' '] + name_of(c),
        None => name_of(c),
    }
}

impl Category {
    pub const ALL: [Category; 8] = [
        Category::Appearance,
        Category::Display,
        Category::Audio,
        Category::Network,
        Category::Bluetooth,
        Category::Widgets,
        Category::Power,
        Category::System,
    ];

    /// The title of the page.
    pub fn name(&self) -> (s: &'static str)
        ensures
            s@ == name_of(*self),
    {
        match self {
            Category::Appearance => "Appearance",
            Category::Display => "Display",
            Category::Audio => "Audio",
            Category::Network => "Network",
            Category::Bluetooth => "Bluetooth",
            Category::Widgets => "Widgets",
            Category::Power => "Power",
            Category::System => "About",
        }
    }

    /// Candidate icon codepoints in priority order. The first one the loaded
    /// font has a glyph for is used; if none exist the icon is dropped.
    pub fn icon_candidates(&self) -> (g: &'static [char])
        ensures
            g@ == icon_candidates_of(*self),
    {
        match self {
            Category::Appearance => &['\u{f1fc}', '\u{f53f}'],
            Category::Display => &['\u{f878}', '\u{f108}'],
            Category::Audio => &['\u{f028}'],
            Category::Network => &['\u{f1eb}'],
            Category::Bluetooth => &['\u{f294}'],
            Category::Widgets => &['\u{f009}', '\u{f0e8}'],
            Category::Power => &['\u{f011}'],
            Category::System => &['\u{f05a}', '\u{f129}'],
        }
    }

    /// The icon: the first candidate for which `available` (whether the font
    /// has its glyph, one flag per candidate) holds.
    pub fn icon(&self, available: &[bool]) -> (r: Option<char>)
        ensures
            r == first_available(icon_candidates_of(*self), available@),
    {
        let cands = self.icon_candidates();
        let mut i: usize = 0;
        assert(cands@.skip(0) =~= cands@);
        assert(available@.skip(0) =~= available@);
        while i < cands.len() && i < available.len()
            invariant
                cands@ == icon_candidates_of(*self),
                i <= cands@.len(),
                first_available(cands@, available@) == first_available(
                    cands@.skip(i as int),
                    available@.skip(i as int),
                ),
            decreases cands.len() - i,
        {
            if available[i] {
                return Some(cands[i]);
            }
            assert(cands@.skip(i as int).skip(1) =~= cands@.skip(i + 1));
            assert(available@.skip(i as int).skip(1) =~= available@.skip(i + 1));
            i += 1;
        }
        None
    }

    /// The sidebar entry, with the icon chosen by [`Category::icon`].
    pub fn label(&self, icon: Option<char>) -> (s: String)
        ensures
            s@ == label_of(*self, icon),
    {
        match icon {
            Some(g) => {
                let mut s = String::new();
                let mut head: Vec<char> = Vec::new();
                head.push(g);
                head.push(' ');
                head.push(' ');
                let h = crate::text::string_of(head.as_slice());
                s.append(h.as_str());
                s.append(self.name());
                assert(head@ =~= seq![g, ' ', ' ']);
                s
            },
            None => String::from_str(self.name()),
        }
    }

    /// The page after this one in the sidebar, wrapping to the first.
    pub fn next(&self) -> (c: Category)
        ensures
            position_of(c) == (position_of(*self) + 1) % 8,
    {
        match self {
            Category::Appearance => Category::Display,
            Category::Display => Category::Audio,
            Category::Audio => Category::Network,
            Category::Network => Category::Bluetooth,
            Category::Bluetooth => Category::Widgets,
            Category::Widgets => Category::Power,
            Category::Power => Category::System,
            Category::System => Category::Appearance,
        }
    }
}

/// The sidebar lists every page once, each at its position, in the order of
/// [`Category::ALL`].
pub proof fn lemma_sidebar_positions(c: Category)
    ensures
        Category::ALL@ == all_categories(),
        0 <= position_of(c) < all_categories().len(),
        all_categories()[position_of(c)] == c,
{
    assert(Category::ALL@ =~= all_categories());
}

} // verus!
