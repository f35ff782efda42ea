//! The release channels.

use vstd::prelude::*;
use vstd::string::StringExecFns;
use crate::text::{chars_of, spells};

verus! {

/// The track on which a build is released, from the least to the most
/// settled.
#[derive(Debug, Clone, Copy, PartialEq, Eq, Structural, PartialOrd, Ord, Hash)]
pub enum Channel {
    Canary,
    Beta,
    RC,
    Release,
    Patch,
}

impl Channel {
    /// The label under which the releases list names the channel.
    pub open spec fn label(self) -> Seq<char> {
        match self {
            Channel::Canary => "Canary"@,
            Channel::Beta => "Beta"@,
            Channel::RC => "RC"@,
            Channel::Release => "Release"@,
            Channel::Patch => "Patch"@,
        }
    }

    /// The channel that a label names. Only the five labels name one, letter
    /// for letter.
    pub open spec fn from_label(text: Seq<char>) -> Option<Channel> {
        if text == Channel::Canary.label() {
            Some(Channel::Canary)
        } else if text == Channel::Beta.label() {
            Some(Channel::Beta)
        } else if text == Channel::RC.label() {
            Some(Channel::RC)
        } else if text == Channel::Release.label() {
            Some(Channel::Release)
        } else if text == Channel::Patch.label() {
            Some(Channel::Patch)
        } else {
            None
        }
    }

    /// The label of the channel, as the releases list writes it.
    pub fn as_str(&self) -> (label: &'static str)
        ensures
            label@ == self.label(),
    {
        match self {
            Channel::Canary => "Canary",
            Channel::Beta => "Beta",
            Channel::RC => "RC",
            Channel::Release => "Release",
            Channel::Patch => "Patch",
        }
    }

    /// The label of the channel, as an owned text.
    pub fn to_string(&self) -> (label: String)
        ensures
            label@ == self.label(),
    {
        String::from_str(self.as_str())
    }

    /// The channel that the characters name, if they name one.
    pub fn from_chars(chars: &Vec<char>) -> (channel: Option<Channel>)
        ensures
            channel == Channel::from_label(chars@),
    {
        assert(chars@.subrange(0, chars.len() as int) =~= chars@);
        if spells(chars, 0, chars.len(), Channel::Canary.as_str()) {
            Some(Channel::Canary)
        } else if spells(chars, 0, chars.len(), Channel::Beta.as_str()) {
            Some(Channel::Beta)
        } else if spells(chars, 0, chars.len(), Channel::RC.as_str()) {
            Some(Channel::RC)
        } else if spells(chars, 0, chars.len(), Channel::Release.as_str()) {
            Some(Channel::Release)
        } else if spells(chars, 0, chars.len(), Channel::Patch.as_str()) {
            Some(Channel::Patch)
        } else {
            None
        }
    }

    /// Reads a channel from its label. Any other text is refused, with a
    /// message that repeats it.
    pub fn try_from(value: String) -> (channel: Result<Channel, String>)
        ensures
            match channel {
                Ok(c) => Channel::from_label(value@) == Some(c),
                Err(message) => Channel::from_label(value@) is None
                    && message@ == "Unknown Channel name: "@ + value@,
            },
    {
        let chars = chars_of(value.as_str());
        match Channel::from_chars(&chars) {
            Some(c) => Ok(c),
            None => Err(String::from_str("Unknown Channel name: ").concat(value.as_str())),
        }
    }
}

/// Reading a channel back from its label gives the channel, and nothing but
/// its label gives it.
pub proof fn lemma_label_round_trip(channel: Channel, text: Seq<char>)
    ensures
        Channel::from_label(channel.label()) == Some(channel),
        Channel::from_label(text) == Some(channel) <==> text == channel.label(),
        Channel::from_label(text) is None <==> forall|c: Channel| text != #[trigger] c.label(),
{
    reveal_strlit("Canary");
    reveal_strlit("Beta");
    reveal_strlit("RC");
    reveal_strlit("Release");
    reveal_strlit("Patch");
    assert("Canary"@.len() == 6);
    assert("Beta"@.len() == 4);
    assert("RC"@.len() == 2);
    assert("Release"@.len() == 7);
    assert("Patch"@.len() == 5);
}

} // verus!
