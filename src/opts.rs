//! Serial line settings as given on the command line, checked before any
//! port is opened.

use std::str::FromStr;
use vstd::prelude::*;

verus! {

/// Names what `str::trim` returns: the text without leading and trailing
/// whitespace.
pub uninterp spec fn trimmed(s: Seq<char>) -> Seq<char>;

/// Names what `str::to_lowercase` returns.
pub uninterp spec fn lowercased(s: Seq<char>) -> Seq<char>;

/// Relies on `str::trim`: the result depends on the text alone.
#[verifier::external_body]
fn trim(s: &str) -> (r: &str)
    ensures
        r@ == trimmed(s@),
{
    s.trim()
}

/// Relies on `str::to_lowercase`: the result depends on the text alone.
#[verifier::external_body]
fn to_lowercase(s: &str) -> (r: String)
    ensures
        r@ == lowercased(s@),
{
    s.to_lowercase()
}

/// The word a setting is read from: trimmed, then lower-cased.
pub open spec fn setting_word(s: Seq<char>) -> Seq<char> {
    lowercased(trimmed(s))
}

fn word_of(s: &str) -> (r: String)
    ensures
        r@ == setting_word(s@),
{
    to_lowercase(trim(s))
}

fn is_word(w: &String, k: &str) -> (r: bool)
    ensures
        r == (w@ == k@),
{
    let k = k.to_owned();
    w.eq(&k)
}

#[derive(Clone, Copy, Debug, PartialEq, Eq, Structural)]
pub enum DataBits {
    Five,
    Six,
    Seven,
    Eight,
}

#[derive(Clone, Copy, Debug, PartialEq, Eq, Structural)]
pub enum FlowControl {
    Off,
    Software,
    Hardware,
}

#[derive(Clone, Copy, Debug, PartialEq, Eq, Structural)]
pub enum Parity {
    Off,
    Odd,
    Even,
}

#[derive(Clone, Copy, Debug, PartialEq, Eq, Structural)]
pub enum StopBits {
    One,
    Two,
}

pub open spec fn data_bits_of(w: Seq<char>) -> Option<DataBits> {
    if w == "5"@ || w == "five"@ {
        Some(DataBits::Five)
    } else if w == "6"@ || w == "six"@ {
        Some(DataBits::Six)
    } else if w == "7"@ || w == "seven"@ {
        Some(DataBits::Seven)
    } else if w == "8"@ || w == "eight"@ {
        Some(DataBits::Eight)
    } else {
        None
    }
}

pub open spec fn flow_control_of(w: Seq<char>) -> Option<FlowControl> {
    if w == "none"@ {
        Some(FlowControl::Off)
    } else if w == "software"@ || w == "sw"@ {
        Some(FlowControl::Software)
    } else if w == "hardware"@ || w == "hw"@ {
        Some(FlowControl::Hardware)
    } else {
        None
    }
}

pub open spec fn parity_of(w: Seq<char>) -> Option<Parity> {
    if w == "none"@ {
        Some(Parity::Off)
    } else if w == "odd"@ {
        Some(Parity::Odd)
    } else if w == "even"@ {
        Some(Parity::Even)
    } else {
        None
    }
}

pub open spec fn stop_bits_of(w: Seq<char>) -> Option<StopBits> {
    if w == "1"@ || w == "one"@ {
        Some(StopBits::One)
    } else if w == "2"@ || w == "two"@ {
        Some(StopBits::Two)
    } else {
        None
    }
}

impl DataBits {
    pub fn parse(s: &str) -> (r: Result<DataBits, String>)
        ensures
            r is Ok <==> data_bits_of(setting_word(s@)) is Some,
            r matches Ok(d) ==> data_bits_of(setting_word(s@)) == Some(d),
            r matches Err(m) ==> m@ == "Invalid data bits"@,
    {
        let w = word_of(s);
        if is_word(&w, "5") || is_word(&w, "five") {
            Ok(DataBits::Five)
        } else if is_word(&w, "6") || is_word(&w, "six") {
            Ok(DataBits::Six)
        } else if is_word(&w, "7") || is_word(&w, "seven") {
            Ok(DataBits::Seven)
        } else if is_word(&w, "8") || is_word(&w, "eight") {
            Ok(DataBits::Eight)
        } else {
            Err("Invalid data bits".to_owned())
        }
    }
}

impl FlowControl {
    pub fn parse(s: &str) -> (r: Result<FlowControl, String>)
        ensures
            r is Ok <==> flow_control_of(setting_word(s@)) is Some,
            r matches Ok(d) ==> flow_control_of(setting_word(s@)) == Some(d),
            r matches Err(m) ==> m@ == "Invalid flow control"@,
    {
        let w = word_of(s);
        if is_word(&w, "none") {
            Ok(FlowControl::Off)
        } else if is_word(&w, "software") || is_word(&w, "sw") {
            Ok(FlowControl::Software)
        } else if is_word(&w, "hardware") || is_word(&w, "hw") {
            Ok(FlowControl::Hardware)
        } else {
            Err("Invalid flow control".to_owned())
        }
    }
}

impl Parity {
    pub fn parse(s: &str) -> (r: Result<Parity, String>)
        ensures
            r is Ok <==> parity_of(setting_word(s@)) is Some,
            r matches Ok(d) ==> parity_of(setting_word(s@)) == Some(d),
            r matches Err(m) ==> m@ == "Invalid parity"@,
    {
        let w = word_of(s);
        if is_word(&w, "none") {
            Ok(Parity::Off)
        } else if is_word(&w, "odd") {
            Ok(Parity::Odd)
        } else if is_word(&w, "even") {
            Ok(Parity::Even)
        } else {
            Err("Invalid parity".to_owned())
        }
    }
}

impl StopBits {
    pub fn parse(s: &str) -> (r: Result<StopBits, String>)
        ensures
            r is Ok <==> stop_bits_of(setting_word(s@)) is Some,
            r matches Ok(d) ==> stop_bits_of(setting_word(s@)) == Some(d),
            r matches Err(m) ==> m@ == "Invalid stop bits"@,
    {
        let w = word_of(s);
        if is_word(&w, "1") || is_word(&w, "one") {
            Ok(StopBits::One)
        } else if is_word(&w, "2") || is_word(&w, "two") {
            Ok(StopBits::Two)
        } else {
            Err("Invalid stop bits".to_owned())
        }
    }
}

impl FromStr for DataBits {
    type Err = String;

    fn from_str(s: &str) -> Result<Self, Self::Err> {
        DataBits::parse(s)
    }
}

impl FromStr for FlowControl {
    type Err = String;

    fn from_str(s: &str) -> Result<Self, Self::Err> {
        FlowControl::parse(s)
    }
}

impl FromStr for Parity {
    type Err = String;

    fn from_str(s: &str) -> Result<Self, Self::Err> {
        Parity::parse(s)
    }
}

impl FromStr for StopBits {
    type Err = String;

    fn from_str(s: &str) -> Result<Self, Self::Err> {
        StopBits::parse(s)
    }
}

} // verus!
