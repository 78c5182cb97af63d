use vstd::prelude::*;

verus! {

/// The name of a book type code, where it is a known one.
pub open spec fn mobi_type_name(code: u32) -> Option<Seq<char>> {
    if code == 2 {
        Some("Mobipocket Book"@)
    } else if code == 3 {
        Some("PalmDoc Book"@)
    } else if code == 4 {
        Some("Audio"@)
    } else if code == 257 {
        Some("News"@)
    } else if code == 258 {
        Some("News Feed"@)
    } else if code == 259 {
        Some("News Magazine"@)
    } else if code == 513 {
        Some("PICS"@)
    } else if code == 514 {
        Some("WORD"@)
    } else if code == 515 {
        Some("XLS"@)
    } else if code == 516 {
        Some("PPT"@)
    } else if code == 517 {
        Some("TEXT"@)
    } else if code == 518 {
        Some("HTML"@)
    } else {
        None
    }
}

/// The name of a primary language code (the low byte of a locale), where it is a known one.
pub open spec fn language_name(code: u32) -> Option<Seq<char>> {
    if code == 0 {
        Some("Neutral"@)
    } else if code == 1 {
        Some("Arabic"@)
    } else if code == 4 {
        Some("Chinese"@)
    } else if code == 5 {
        Some("Czech"@)
    } else if code == 6 {
        Some("Danish"@)
    } else if code == 7 {
        Some("German"@)
    } else if code == 8 {
        Some("Greek"@)
    } else if code == 9 {
        Some("English"@)
    } else if code == 10 {
        Some("Spanish"@)
    } else if code == 11 {
        Some("Finnish"@)
    } else if code == 12 {
        Some("French"@)
    } else if code == 13 {
        Some("Hebrew"@)
    } else if code == 14 {
        Some("Hungarian"@)
    } else if code == 16 {
        Some("Italian"@)
    } else if code == 17 {
        Some("Japanese"@)
    } else if code == 18 {
        Some("Korean"@)
    } else if code == 19 {
        Some("Dutch"@)
    } else if code == 20 {
        Some("Norwegian"@)
    } else if code == 21 {
        Some("Polish"@)
    } else if code == 22 {
        Some("Portuguese"@)
    } else if code == 25 {
        Some("Russian"@)
    } else if code == 29 {
        Some("Swedish"@)
    } else if code == 31 {
        Some("Turkish"@)
    } else {
        None
    }
}

/// The name of a book type code, where it is a known one.
pub fn mobi_type_string(code: u32) -> (r: Option<String>)
    ensures
        match r {
            Some(s) => mobi_type_name(code) == Some(s@),
            None => mobi_type_name(code) is None,
        },
{
    let s = if code == 2 {
        "Mobipocket Book"
    } else if code == 3 {
        "PalmDoc Book"
    } else if code == 4 {
        "Audio"
    } else if code == 257 {
        "News"
    } else if code == 258 {
        "News Feed"
    } else if code == 259 {
        "News Magazine"
    } else if code == 513 {
        "PICS"
    } else if code == 514 {
        "WORD"
    } else if code == 515 {
        "XLS"
    } else if code == 516 {
        "PPT"
    } else if code == 517 {
        "TEXT"
    } else if code == 518 {
        "HTML"
    } else {
        return None;
    };
    Some(s.to_owned())
}

/// The name of the primary language of a locale code, where it is a known one.
pub fn language_string(locale: u32) -> (r: Option<String>)
    ensures
        match r {
            Some(s) => language_name(locale & 0xff) == Some(s@),
            None => language_name(locale & 0xff) is None,
        },
{
    let code = locale & 0xff;
    let s = if code == 0 {
        "Neutral"
    } else if code == 1 {
        "Arabic"
    } else if code == 4 {
        "Chinese"
    } else if code == 5 {
        "Czech"
    } else if code == 6 {
        "Danish"
    } else if code == 7 {
        "German"
    } else if code == 8 {
        "Greek"
    } else if code == 9 {
        "English"
    } else if code == 10 {
        "Spanish"
    } else if code == 11 {
        "Finnish"
    } else if code == 12 {
        "French"
    } else if code == 13 {
        "Hebrew"
    } else if code == 14 {
        "Hungarian"
    } else if code == 16 {
        "Italian"
    } else if code == 17 {
        "Japanese"
    } else if code == 18 {
        "Korean"
    } else if code == 19 {
        "Dutch"
    } else if code == 20 {
        "Norwegian"
    } else if code == 21 {
        "Polish"
    } else if code == 22 {
        "Portuguese"
    } else if code == 25 {
        "Russian"
    } else if code == 29 {
        "Swedish"
    } else if code == 31 {
        "Turkish"
    } else {
        return None;
    };
    Some(s.to_owned())
}

} // verus!
