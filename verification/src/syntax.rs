//! The themes for the colors of the text.

use vstd::prelude::*;

use crate::panels::texts;
use crate::text::same_text;

verus! {

/// Which theme colors the text, out of those there are.
#[derive(Debug)]
pub struct SyntaxEngine {
    pub theme: String,
    pub themes: Vec<String>,
}

#[verifier::ext_equal]
pub struct EngineV {
    pub theme: Seq<char>,
    pub themes: Seq<Seq<char>>,
}

impl View for SyntaxEngine {
    type V = EngineV;

    open spec fn view(&self) -> EngineV {
        EngineV { theme: self.theme@, themes: texts(self.themes@) }
    }
}

/// The themes that are built in.
pub open spec fn built_in_themes() -> Seq<Seq<char>> {
    seq![
        "Ocean Dark"@,
        "One Dark"@,
        "Fjord Night"@,
        "Aubergine"@,
        "Sandstone"@,
        "High Contrast"@,
        "Solarized Light"@,
    ]
}

pub open spec fn default_engine() -> EngineV {
    EngineV { theme: "Ocean Dark"@, themes: built_in_themes() }
}

impl EngineV {
    pub open spec fn has(self, name: Seq<char>) -> bool {
        self.themes.contains(name)
    }

    pub open spec fn with_theme(self, name: Seq<char>) -> EngineV {
        if self.has(name) { EngineV { theme: name, ..self } } else { self }
    }
}

impl SyntaxEngine {
    /// The built-in themes, a dark one chosen.
    pub fn default_dark() -> (r: SyntaxEngine)
        ensures
            r@ == default_engine(),
    {
        let mut themes: Vec<String> = Vec::new();
        themes.push("Ocean Dark".to_owned());
        themes.push("One Dark".to_owned());
        themes.push("Fjord Night".to_owned());
        themes.push("Aubergine".to_owned());
        themes.push("Sandstone".to_owned());
        themes.push("High Contrast".to_owned());
        themes.push("Solarized Light".to_owned());
        let r = SyntaxEngine { theme: "Ocean Dark".to_owned(), themes };
        assert(r@ =~= default_engine());
        r
    }

    pub fn theme_name(&self) -> (r: &str)
        ensures
            r@ == self@.theme,
    {
        self.theme.as_str()
    }

    pub fn theme_names(&self) -> (r: &Vec<String>)
        ensures
            texts(r@) == self@.themes,
    {
        &self.themes
    }

    /// Choose a theme. Says whether there is one of that name; if not, nothing
    /// changes.
    pub fn set_theme_by_name(&mut self, name: &str) -> (r: bool)
        ensures
            r == old(self)@.has(name@),
            final(self)@ == old(self)@.with_theme(name@),
    {
        let mut i: usize = 0;
        while i < self.themes.len()
            invariant
                i <= self.themes.len(),
                self@ == old(self)@,
                forall|k: int| 0 <= k < i ==> (#[trigger] self@.themes[k]) != name@,
            decreases self.themes.len() - i,
        {
            assert(self@.themes[i as int] == self.themes@[i as int]@);
            if same_text(self.themes[i].as_str(), name) {
                self.theme = name.to_owned();
                return true;
            }
            i += 1;
        }
        false
    }
}

} // verus!
