//! The fixed table of bidirectional control characters.

use vstd::prelude::*;

verus! {

/// True exactly for the nine bidirectional control code points that are reported.
pub open spec fn is_bidi_char(c: char) -> bool {
    c == '\u{202A}' || c == '\u{202B}' || c == '\u{202D}' || c == '\u{202E}'
        || c == '\u{2066}' || c == '\u{2067}' || c == '\u{2068}' || c == '\u{202C}'
        || c == '\u{2069}'
}

/// Whether `c` is one of the nine control characters of the table.
pub fn is_control_char(c: char) -> (r: bool)
    ensures
        r == is_bidi_char(c),
{
    c == '\u{202A}' || c == '\u{202B}' || c == '\u{202D}' || c == '\u{202E}' || c == '\u{2066}'
        || c == '\u{2067}' || c == '\u{2068}' || c == '\u{202C}' || c == '\u{2069}'
}

/// Short code of a control character; empty for any other character.
pub open spec fn abbreviation_of(c: char) -> Seq<char> {
    if c == '\u{202A}' {
        "LRE"@
    } else if c == '\u{202B}' {
        "RLE"@
    } else if c == '\u{202D}' {
        "LRO"@
    } else if c == '\u{202E}' {
        "RLO"@
    } else if c == '\u{2066}' {
        "LRI"@
    } else if c == '\u{2067}' {
        "RLI"@
    } else if c == '\u{2068}' {
        "FSI"@
    } else if c == '\u{202C}' {
        "PDF"@
    } else if c == '\u{2069}' {
        "PDI"@
    } else {
        Seq::empty()
    }
}

/// Human-readable name of a control character; empty for any other character.
pub open spec fn name_of(c: char) -> Seq<char> {
    if c == '\u{202A}' {
        "Left-To-Right Embedding"@
    } else if c == '\u{202B}' {
        "Right-To-Left Embedding"@
    } else if c == '\u{202D}' {
        "Left-to-Right Override"@
    } else if c == '\u{202E}' {
        "Right-to-Left Override"@
    } else if c == '\u{2066}' {
        "Left-to-Right Isolate"@
    } else if c == '\u{2067}' {
        "Right-to-Left Isolate"@
    } else if c == '\u{2068}' {
        "First Strong Isolate"@
    } else if c == '\u{202C}' {
        "Pop Directional Formatting"@
    } else if c == '\u{2069}' {
        "Pop Directional Isolate"@
    } else {
        Seq::empty()
    }
}

/// What a control character does to the text that follows it; empty for
/// any other character.
pub open spec fn description_of(c: char) -> Seq<char> {
    if c == '\u{202A}' {
        "Try treating following text as left-to-right."@
    } else if c == '\u{202B}' {
        "Try treating following text as right-to-left."@
    } else if c == '\u{202D}' {
        "Force treating following text as left-to-right."@
    } else if c == '\u{202E}' {
        "Force treating following text as right-to-left."@
    } else if c == '\u{2066}' {
        "Force treating following text as left-to-right without affecting adjacent text."@
    } else if c == '\u{2067}' {
        "Force treating following text as right-to-left without affecting adjacent text."@
    } else if c == '\u{2068}' {
        "Force treating following text in direction indicated by the next character."@
    } else if c == '\u{202C}' {
        "Terminate nearest LRE, RLE, LRO, or RLO."@
    } else if c == '\u{2069}' {
        "Terminate nearest LRI or RLI."@
    } else {
        Seq::empty()
    }
}

/// Metadata of one bidirectional control character.
#[derive(Debug, Clone)]
pub struct BIDICharDetail {
    pub abbreviation: String,
    pub name: String,
    pub description: String,
}

impl BIDICharDetail {
    /// The entry of the table for `c`.
    pub open spec fn is_entry_for(&self, c: char) -> bool {
        &&& self.abbreviation@ == abbreviation_of(c)
        &&& self.name@ == name_of(c)
        &&& self.description@ == description_of(c)
    }
}

fn entry(abbreviation: &str, name: &str, description: &str) -> (r: BIDICharDetail)
    ensures
        r.abbreviation@ == abbreviation@,
        r.name@ == name@,
        r.description@ == description@,
{
    BIDICharDetail {
        abbreviation: abbreviation.to_owned(),
        name: name.to_owned(),
        description: description.to_owned(),
    }
}

/// Looks up a character in the table: `Some` with its metadata exactly for
/// the nine control characters, `None` for every other character.
pub fn get_char_detail(unicode_char: &char) -> (r: Option<BIDICharDetail>)
    ensures
        r is Some <==> is_bidi_char(*unicode_char),
        r matches Some(d) ==> d.is_entry_for(*unicode_char),
{
    match *unicode_char {
        '\u{202A}' => Some(
            entry("LRE", "Left-To-Right Embedding", "Try treating following text as left-to-right."),
        ),
        '\u{202B}' => Some(
            entry("RLE", "Right-To-Left Embedding", "Try treating following text as right-to-left."),
        ),
        '\u{202D}' => Some(
            entry(
                "LRO",
                "Left-to-Right Override",
                "Force treating following text as left-to-right.",
            ),
        ),
        '\u{202E}' => Some(
            entry(
                "RLO",
                "Right-to-Left Override",
                "Force treating following text as right-to-left.",
            ),
        ),
        '\u{2066}' => Some(
            entry(
                "LRI",
                "Left-to-Right Isolate",
                "Force treating following text as left-to-right without affecting adjacent text.",
            ),
        ),
        '\u{2067}' => Some(
            entry(
                "RLI",
                "Right-to-Left Isolate",
                "Force treating following text as right-to-left without affecting adjacent text.",
            ),
        ),
        '\u{2068}' => Some(
            entry(
                "FSI",
                "First Strong Isolate",
                "Force treating following text in direction indicated by the next character.",
            ),
        ),
        '\u{202C}' => Some(
            entry("PDF", "Pop Directional Formatting", "Terminate nearest LRE, RLE, LRO, or RLO."),
        ),
        '\u{2069}' => Some(
            entry("PDI", "Pop Directional Isolate", "Terminate nearest LRI or RLI."),
        ),
        _ => None,
    }
}

/// No two control characters of the table share an abbreviation.
pub proof fn abbreviations_are_unique(c1: char, c2: char)
    requires
        is_bidi_char(c1),
        is_bidi_char(c2),
        abbreviation_of(c1) == abbreviation_of(c2),
    ensures
        c1 == c2,
{
    reveal_strlit("LRE");
    reveal_strlit("RLE");
    reveal_strlit("LRO");
    reveal_strlit("RLO");
    reveal_strlit("LRI");
    reveal_strlit("RLI");
    reveal_strlit("FSI");
    reveal_strlit("PDF");
    reveal_strlit("PDI");
    if c1 != c2 {
        let a1 = abbreviation_of(c1);
        let a2 = abbreviation_of(c2);
        assert(a1[0] != a2[0] || a1[1] != a2[1] || a1[2] != a2[2]);
    }
}

} // verus!
