//! Stream selection: which elementary streams of a probed source are mapped
//! into the encoder's output.
//!
//! The first video stream and an optional subtitle stream are always mapped
//! through wildcard selectors. Audio streams are mapped by their absolute
//! index when their channel count is positive; a zero-channel audio stream
//! is a disabled placeholder and is excluded; an audio stream without a
//! channel count makes the whole probe result malformed, which is a fatal
//! error, not a silent skip.

use vstd::prelude::*;

use crate::model::{CodecKind, EncodeError, StreamInfo};
use crate::numeral::dec_str;
use crate::numeral::u64_to_string;

verus! {

/// One stream-map directive handed to the encoder.
#[derive(Clone, Copy, PartialEq, Eq, Structural, Debug)]
pub enum StreamMap {
    /// Wildcard selector for the video stream.
    VideoAll,
    /// Wildcard selector for a subtitle stream, optional if absent.
    SubtitleAll,
    /// One audio stream, by its absolute index in the source.
    AudioAt(usize),
}

/// The encoder-facing text of one map directive.
pub open spec fn map_str(m: StreamMap) -> Seq<char> {
    match m {
        StreamMap::VideoAll => seq!['0', ':', 'v'],
        StreamMap::SubtitleAll => seq!['0', ':', 's', '?'],
        StreamMap::AudioAt(n) => seq!['0', ':'] + dec_str(n as nat),
    }
}

/// Whether an audio stream qualifies for selection: classified as audio
/// with a known, positive channel count.
pub open spec fn audio_selected(s: StreamInfo) -> bool {
    s.codec is Audio && s.channels is Some && s.channels->0 > 0
}

/// Whether a probe result is malformed: some audio stream carries no
/// channel count.
pub open spec fn missing_channels(streams: Seq<StreamInfo>) -> bool {
    exists|i: int|
        0 <= i < streams.len() && (#[trigger] streams[i]).codec is Audio
            && streams[i].channels is None
}

/// The audio map directives selected from `streams`, in input order.
pub open spec fn audio_maps(streams: Seq<StreamInfo>) -> Seq<StreamMap>
    decreases streams.len(),
{
    if streams.len() == 0 {
        Seq::empty()
    } else {
        let prefix = audio_maps(streams.drop_last());
        if audio_selected(streams.last()) {
            prefix.push(StreamMap::AudioAt((streams.len() - 1) as usize))
        } else {
            prefix
        }
    }
}

/// The full selected map list: the two wildcard selectors followed by the
/// qualifying audio streams in input order.
pub open spec fn selected_maps(streams: Seq<StreamInfo>) -> Seq<StreamMap> {
    seq![StreamMap::VideoAll, StreamMap::SubtitleAll] + audio_maps(streams)
}

/// Select the stream maps for one probed source. Fails exactly when some
/// audio stream carries no channel count.
pub fn select_stream_maps(streams: &Vec<StreamInfo>) -> (r: Result<
    Vec<StreamMap>,
    EncodeError,
>)
    ensures
        r is Ok <==> !missing_channels(streams@),
        r matches Ok(maps) ==> maps@ == selected_maps(streams@),
        r matches Err(e) ==> e == EncodeError::MissingChannelCount,
{
    let mut maps: Vec<StreamMap> = Vec::new();
    maps.push(StreamMap::VideoAll);
    maps.push(StreamMap::SubtitleAll);

    let mut i: usize = 0;
    while i < streams.len()
        invariant
            0 <= i <= streams@.len(),
            maps@ == selected_maps(streams@.take(i as int)),
            !missing_channels(streams@.take(i as int)),
        decreases streams@.len() - i,
    {
        let s = streams[i];
        proof {
            assert(streams@.take(i + 1).drop_last() =~= streams@.take(i as int));
            assert(streams@.take(i + 1).last() == streams@[i as int]);
        }
        if matches!(s.codec, CodecKind::Audio) {
            match s.channels {
                Some(c) => {
                    if c > 0 {
                        maps.push(StreamMap::AudioAt(i));
                    }
                },
                None => {
                    proof {
                        assert(missing_channels(streams@));
                    }
                    return Err(EncodeError::MissingChannelCount);
                },
            }
        }
        proof {
            assert(maps@ =~= selected_maps(streams@.take(i + 1)));
            assert forall|j: int|
                0 <= j < streams@.take(i + 1).len() && (#[trigger] streams@.take(i + 1)[j]).codec
                    is Audio implies streams@.take(i + 1)[j].channels is Some by {
                assert(streams@.take(i + 1)[j] == if j < i as int {
                    streams@.take(i as int)[j]
                } else {
                    streams@[i as int]
                });
            }
        }
        i += 1;
    }
    proof {
        assert(streams@.take(streams@.len() as int) =~= streams@);
    }
    Ok(maps)
}

/// Render one map directive as the encoder's map argument.
pub fn render_map(m: &StreamMap) -> (r: String)
    ensures
        r@ == map_str(*m),
{
    match m {
        StreamMap::VideoAll => {
            let r = String::from_str("0:v");
            proof {
                reveal_strlit("0:v");
                assert(r@ =~= map_str(StreamMap::VideoAll));
            }
            r
        },
        StreamMap::SubtitleAll => {
            let r = String::from_str("0:s?");
            proof {
                reveal_strlit("0:s?");
                assert(r@ =~= map_str(StreamMap::SubtitleAll));
            }
            r
        },
        StreamMap::AudioAt(n) => {
            let digits = u64_to_string(*n as u64);
            let r = String::from_str("0:").concat(digits.as_str());
            proof {
                reveal_strlit("0:");
                assert(r@ =~= map_str(StreamMap::AudioAt(*n)));
            }
            r
        },
    }
}

/// A probe result in which every audio stream carries a channel count is
/// never treated as malformed: selection cannot raise the missing-channel
/// failure on it.
pub proof fn lemma_complete_channels_never_malformed(streams: Seq<StreamInfo>)
    requires
        forall|i: int|
            0 <= i < streams.len() && (#[trigger] streams[i]).codec is Audio
                ==> streams[i].channels is Some,
    ensures
        !missing_channels(streams),
{
}

proof fn lemma_audio_maps_index_bound(streams: Seq<StreamInfo>, j: usize)
    requires
        streams.len() <= j,
    ensures
        !audio_maps(streams).contains(StreamMap::AudioAt(j)),
    decreases streams.len(),
{
    if streams.len() > 0 {
        lemma_audio_maps_index_bound(streams.drop_last(), j);
        let prefix = audio_maps(streams.drop_last());
        if audio_selected(streams.last()) {
            let pushed = prefix.push(StreamMap::AudioAt((streams.len() - 1) as usize));
            assert forall|k: int| 0 <= k < pushed.len() implies pushed[k] != StreamMap::AudioAt(
                j,
            ) by {
                if k < prefix.len() {
                    assert(pushed[k] == prefix[k]);
                    assert(prefix.contains(prefix[k]));
                }
            }
        }
    }
}

proof fn lemma_audio_maps_contains(streams: Seq<StreamInfo>, i: int)
    requires
        0 <= i < streams.len() <= usize::MAX,
    ensures
        audio_maps(streams).contains(StreamMap::AudioAt(i as usize)) <==> audio_selected(
            streams[i],
        ),
    decreases streams.len(),
{
    let n = streams.len() as int;
    let prefix = streams.drop_last();
    let pm = audio_maps(prefix);
    if i == n - 1 {
        lemma_audio_maps_index_bound(prefix, i as usize);
        if audio_selected(streams[i]) {
            let pushed = pm.push(StreamMap::AudioAt(i as usize));
            assert(pushed[pushed.len() - 1] == StreamMap::AudioAt(i as usize));
            assert(pushed.contains(StreamMap::AudioAt(i as usize)));
        } else {
            assert(audio_maps(streams) == pm);
        }
    } else {
        lemma_audio_maps_contains(prefix, i);
        assert(prefix[i] == streams[i]);
        if audio_selected(streams.last()) {
            let pushed = pm.push(StreamMap::AudioAt((n - 1) as usize));
            if audio_selected(streams[i]) {
                let k = choose|k: int| 0 <= k < pm.len() && pm[k] == StreamMap::AudioAt(
                    i as usize,
                );
                assert(pushed[k] == StreamMap::AudioAt(i as usize));
                assert(pushed.contains(StreamMap::AudioAt(i as usize)));
            } else {
                assert forall|k: int| 0 <= k < pushed.len() implies pushed[k]
                    != StreamMap::AudioAt(i as usize) by {
                    if k < pm.len() {
                        assert(pushed[k] == pm[k]);
                        assert(pm.contains(pm[k]));
                    } else {
                        assert(pushed[k] == StreamMap::AudioAt((n - 1) as usize));
                    }
                }
            }
        }
    }
}

/// An audio stream with a positive channel count is always selected, under
/// its original index; one with channel count zero never is.
pub proof fn lemma_audio_selection(streams: Seq<StreamInfo>, i: int)
    requires
        0 <= i < streams.len() <= usize::MAX,
        streams[i].codec is Audio,
        streams[i].channels is Some,
    ensures
        streams[i].channels->0 > 0 ==> selected_maps(streams).contains(
            StreamMap::AudioAt(i as usize),
        ),
        streams[i].channels->0 == 0 ==> !selected_maps(streams).contains(
            StreamMap::AudioAt(i as usize),
        ),
{
    lemma_audio_maps_contains(streams, i);
    let am = audio_maps(streams);
    let sm = selected_maps(streams);
    assert(sm.len() == 2 + am.len());
    assert forall|k: int| 0 <= k < am.len() implies sm[k + 2] == am[k] by {}
    if audio_selected(streams[i]) {
        let k = choose|k: int| 0 <= k < am.len() && am[k] == StreamMap::AudioAt(i as usize);
        assert(sm[k + 2] == StreamMap::AudioAt(i as usize));
        assert(sm.contains(StreamMap::AudioAt(i as usize)));
    } else {
        assert forall|k: int| 0 <= k < sm.len() implies sm[k] != StreamMap::AudioAt(
            i as usize,
        ) by {
            if k >= 2 {
                assert(sm[k] == am[k - 2]);
                assert(am.contains(am[k - 2]));
            }
        }
    }
}

} // verus!
