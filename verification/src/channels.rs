//! Parton channels: the description of a run's initial state and the
//! channels that the partonic processes are grouped into.

use vstd::prelude::*;
use crate::error::{outcome, ParseErr, ParseErrView};
use crate::fields::{
    i32_fields, i32_texts, lemma_i32_fields_len, lemma_i32_fields_of_joined, read_i32s,
    write_i32s,
};
use crate::text::{is_field_text, join_commas, seq_view, split_commas};

verus! {

/// How a run was set up.
#[derive(Debug, Eq, PartialEq, Ord, PartialOrd, Hash)]
pub struct Init {
    /// The incoming particles, in words.
    pub incoming: String,
    /// How the scales were chosen, in words.
    pub scales: String,
    pub channels: Channels,
}

/// The channels of a run, in order.
#[derive(Debug, Eq, PartialEq, Ord, PartialOrd, Hash)]
pub struct Channels {
    pub channel: Vec<Channel>,
}

/// A channel: a list of integers. The first is the channel's number and the
/// second a count of entries; parton codes follow. The list is kept as it
/// is, and nothing holds the count to what follows it.
#[derive(Debug, Eq, PartialEq, Ord, PartialOrd, Hash)]
pub struct Channel(pub Vec<i32>);

impl View for Channel {
    type V = Seq<i32>;

    open spec fn view(&self) -> Seq<i32> {
        self.0@
    }
}

/// A [`Channels`] by the views of its channels.
pub struct ChannelsView {
    pub channel: Seq<Seq<i32>>,
}

impl View for Channels {
    type V = ChannelsView;

    open spec fn view(&self) -> ChannelsView {
        ChannelsView { channel: seq_view(self.channel@) }
    }
}

/// An [`Init`] by the views of its parts.
pub struct InitView {
    pub incoming: Seq<char>,
    pub scales: Seq<char>,
    pub channels: ChannelsView,
}

impl View for Init {
    type V = InitView;

    open spec fn view(&self) -> InitView {
        InitView { incoming: self.incoming@, scales: self.scales@, channels: self.channels@ }
    }
}

impl Clone for Channel {
    fn clone(&self) -> (r: Self)
        ensures
            r@ == self@,
    {
        let entries = self.0.clone();
        assert(entries@ =~= self.0@);
        Channel(entries)
    }
}

impl Default for Channel {
    /// The empty list, which is no valid channel.
    fn default() -> (r: Self)
        ensures
            r@ == Seq::<i32>::empty(),
    {
        Channel(Vec::new())
    }
}

impl Clone for Channels {
    fn clone(&self) -> (r: Self)
        ensures
            r@ == self@,
    {
        let channel = self.channel.clone();
        assert(seq_view(channel@) =~= seq_view(self.channel@));
        Channels { channel }
    }
}

impl Default for Channels {
    /// No channels.
    fn default() -> (r: Self)
        ensures
            r@ == (ChannelsView { channel: Seq::empty() }),
    {
        let r = Channels { channel: Vec::new() };
        assert(r@.channel =~= Seq::empty());
        r
    }
}

impl Clone for Init {
    fn clone(&self) -> (r: Self)
        ensures
            r@ == self@,
    {
        Init {
            incoming: self.incoming.clone(),
            scales: self.scales.clone(),
            channels: self.channels.clone(),
        }
    }
}

impl Default for Init {
    /// Empty descriptions and no channels.
    fn default() -> (r: Self)
        ensures
            r@ == (InitView {
                incoming: Seq::empty(),
                scales: Seq::empty(),
                channels: ChannelsView { channel: Seq::empty() },
            }),
    {
        Init { incoming: String::new(), scales: String::new(), channels: Channels::default() }
    }
}

impl Channel {
    /// What reading `text` as a channel gives: at least two integer entries.
    pub open spec fn decoded(text: Seq<char>) -> Result<Seq<i32>, ParseErrView> {
        i32_fields(text, 2, false)
    }

    /// How a channel is written.
    pub open spec fn encoded(channel: Seq<i32>) -> Seq<char> {
        join_commas(i32_texts(channel))
    }

    /// At least two entries.
    pub open spec fn valid(channel: Seq<i32>) -> bool {
        channel.len() >= 2
    }

    /// Reads a channel from the text of its field.
    pub fn decode(text: &str) -> (r: Result<Channel, ParseErr>)
        ensures
            outcome(r) == Channel::decoded(text@),
    {
        match read_i32s(text, 2, false) {
            Ok(entries) => Ok(Channel(entries)),
            Err(e) => Err(e),
        }
    }

    /// Writes the channel as the text of its field. Reading that text gives
    /// the channel back if it is valid.
    pub fn encode(&self) -> (text: String)
        ensures
            text@ == Channel::encoded(self@),
            Channel::valid(self@) ==> Channel::decoded(text@) == Ok::<_, ParseErrView>(self@),
            is_field_text(text@),
    {
        proof {
            if Channel::valid(self@) {
                Channel::lemma_decode_encode(self@);
            }
        }
        write_i32s(self.0.as_slice())
    }

    /// Reading a channel that was written gives the channel back.
    pub proof fn lemma_decode_encode(channel: Seq<i32>)
        requires
            Channel::valid(channel),
        ensures
            Channel::decoded(Channel::encoded(channel)) == Ok::<_, ParseErrView>(channel),
    {
        lemma_i32_fields_of_joined(channel, 2, false);
    }

    /// A channel that was read is valid, has one entry for each entry of the
    /// text, and reads the same once it is written.
    pub proof fn lemma_encode_decode(text: Seq<char>)
        requires
            Channel::decoded(text) is Ok,
        ensures
            Channel::valid(Channel::decoded(text)->Ok_0),
            Channel::decoded(text)->Ok_0.len() == split_commas(text).len(),
            Channel::decoded(Channel::encoded(Channel::decoded(text)->Ok_0)) == Channel::decoded(
                text,
            ),
    {
        lemma_i32_fields_len(text, 2, false);
        lemma_i32_fields_of_joined(Channel::decoded(text)->Ok_0, 2, false);
    }

    /// A text with fewer than two entries is no channel.
    pub proof fn lemma_too_short(text: Seq<char>)
        requires
            split_commas(text).len() < 2,
        ensures
            Channel::decoded(text) == Err::<Seq<i32>, _>(ParseErrView::NumEntries(text, 2)),
    {
    }
}

} // verus!
