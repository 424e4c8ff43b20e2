//! Audio post-processing: which processor a station has, how an external one
//! is run, and how samples travel to it and back.

use std::collections::VecDeque;

use vstd::prelude::*;

use crate::config::AudioProcessingConfig;
use crate::output::clone_text;
use crate::text::{push_text, same_text};

verus! {

broadcast use vstd::string::group_string_axioms;

/// The processor that a configuration asks for.
#[derive(Debug)]
pub enum ProcessorChoice {
    /// No processing.
    NoProcessing,
    /// The built-in normalizer and compressor.
    Nrj,
    /// An external program.
    StereoTool { binary: String, preset: String, license_key: Option<String> },
    /// An external program whose path or preset is missing: no processing.
    Incomplete,
    /// A method that is not known: no processing.
    Unrecognized,
}

/// Picks the processor. A configuration that is not complete or not known
/// means no processing, never a failure.
pub fn choose_processor(cfg: &AudioProcessingConfig) -> (choice: ProcessorChoice)
    ensures
        if cfg.method@ == "nrj"@ {
            choice is Nrj
        } else if cfg.method@ == "stereo_tool"@ {
            match (cfg.stereo_tool_binary, cfg.stereo_tool_preset_path) {
                (Some(b), Some(p)) => {
                    &&& choice matches ProcessorChoice::StereoTool { binary, preset, license_key }
                    &&& binary@ == b@
                    &&& preset@ == p@
                    &&& license_key == cfg.stereo_tool_license_key
                },
                _ => choice is Incomplete,
            }
        } else if cfg.method@ == "none"@ {
            choice is NoProcessing
        } else {
            choice is Unrecognized
        },
{
    if same_text(cfg.method.as_str(), "nrj") {
        ProcessorChoice::Nrj
    } else if same_text(cfg.method.as_str(), "stereo_tool") {
        proof {
            reveal_strlit("nrj");
            reveal_strlit("stereo_tool");
        }
        match (&cfg.stereo_tool_binary, &cfg.stereo_tool_preset_path) {
            (Some(binary), Some(preset)) => ProcessorChoice::StereoTool {
                binary: binary.clone(),
                preset: preset.clone(),
                license_key: clone_text(&cfg.stereo_tool_license_key),
            },
            _ => ProcessorChoice::Incomplete,
        }
    } else if same_text(cfg.method.as_str(), "none") {
        ProcessorChoice::NoProcessing
    } else {
        ProcessorChoice::Unrecognized
    }
}

/// The arguments of the external program: it reads its input and writes its
/// output, with this preset. An empty licence key counts as none.
pub open spec fn stereo_tool_flags(preset: Seq<char>, license_key: Option<Seq<char>>) -> Seq<
    Seq<char>,
> {
    seq!["--silent"@, "-"@, "-"@, "-s"@, preset] + (match license_key {
        Some(key) => if key.len() > 0 {
            seq!["-k"@, key]
        } else {
            Seq::empty()
        },
        None => Seq::empty(),
    })
}

/// The arguments of the external program.
pub fn stereo_tool_args(preset: &str, license_key: &Option<String>) -> (args: Vec<String>)
    ensures
        crate::text::texts(args@) == stereo_tool_flags(
            preset@,
            crate::text::opt_view(*license_key),
        ),
{
    let mut args: Vec<String> = Vec::new();
    push_text(&mut args, "--silent");
    push_text(&mut args, "-");
    push_text(&mut args, "-");
    push_text(&mut args, "-s");
    push_text(&mut args, preset);
    match license_key {
        Some(key) => {
            if !key.as_str().is_empty() {
                push_text(&mut args, "-k");
                push_text(&mut args, key.as_str());
            }
        },
        None => {},
    }
    assert(crate::text::texts(args@) =~= stereo_tool_flags(
        preset@,
        crate::text::opt_view(*license_key),
    ));
    args
}

// ---------------------------------------------------------------------------
// Samples as bytes.

/// The byte at place `k` of a sample's bits, the lowest place first.
pub open spec fn byte_at(bits: u32, k: int) -> u8 {
    if k == 0 {
        (bits % 256) as u8
    } else if k == 1 {
        ((bits / 0x100) % 256) as u8
    } else if k == 2 {
        ((bits / 0x1_0000) % 256) as u8
    } else {
        (bits / 0x100_0000) as u8
    }
}

/// The samples as bytes: four each, the lowest first.
pub open spec fn le_bytes(samples: Seq<u32>) -> Seq<u8> {
    Seq::new(4 * samples.len(), |i: int| byte_at(samples[i / 4], i % 4))
}

/// The bits that four bytes stand for, the lowest first.
pub open spec fn bits_of(b0: u8, b1: u8, b2: u8, b3: u8) -> u32 {
    (b0 + 0x100 * b1 + 0x1_0000 * b2 + 0x100_0000 * b3) as u32
}

/// The samples that bytes stand for, four each.
pub open spec fn le_samples(bytes: Seq<u8>) -> Seq<u32> {
    Seq::new(
        bytes.len() / 4,
        |i: int| bits_of(bytes[4 * i], bytes[4 * i + 1], bytes[4 * i + 2], bytes[4 * i + 3]),
    )
}

/// The bits of samples as bytes, four each, the lowest first.
pub fn samples_to_le_bytes(samples: &[u32]) -> (bytes: Vec<u8>)
    ensures
        bytes@ == le_bytes(samples@),
{
    let mut bytes: Vec<u8> = Vec::new();
    let mut i: usize = 0;
    while i < samples.len()
        invariant
            i <= samples@.len(),
            bytes@.len() == 4 * i,
            forall|k: int|
                0 <= k < 4 * i ==> #[trigger] bytes@[k] == byte_at(samples@[k / 4], k % 4),
        decreases samples@.len() - i,
    {
        let bits = samples[i];
        bytes.push((bits % 256) as u8);
        bytes.push(((bits / 0x100) % 256) as u8);
        bytes.push(((bits / 0x1_0000) % 256) as u8);
        bytes.push((bits / 0x100_0000) as u8);
        i += 1;
    }
    assert(bytes@ =~= le_bytes(samples@));
    bytes
}

/// Overwrites `out` with the samples that `bytes` stand for. There are exactly
/// as many bytes as the samples take.
pub fn le_bytes_into_samples(bytes: &[u8], out: &mut Vec<u32>)
    requires
        bytes@.len() == 4 * old(out)@.len(),
    ensures
        final(out)@ == le_samples(bytes@),
{
    let n = out.len();
    let byte_count = bytes.len();
    let mut i: usize = 0;
    while i < n
        invariant
            n == out@.len(),
            byte_count == bytes@.len(),
            byte_count == 4 * n,
            i <= n,
            forall|k: int|
                0 <= k < i ==> #[trigger] out@[k] == bits_of(
                    bytes@[4 * k],
                    bytes@[4 * k + 1],
                    bytes@[4 * k + 2],
                    bytes@[4 * k + 3],
                ),
        decreases n - i,
    {
        let b0 = bytes[4 * i] as u32;
        let b1 = bytes[4 * i + 1] as u32;
        let b2 = bytes[4 * i + 2] as u32;
        let b3 = bytes[4 * i + 3] as u32;
        out.set(i, b0 + 0x100 * b1 + 0x1_0000 * b2 + 0x100_0000 * b3);
        i += 1;
    }
    assert(out@ =~= le_samples(bytes@));
}

/// Samples that travel as bytes come back as they were.
pub proof fn law_bytes_give_the_samples_back(samples: Seq<u32>)
    ensures
        le_samples(le_bytes(samples)) == samples,
{
    let bytes = le_bytes(samples);
    let back = le_samples(bytes);
    assert forall|i: int| 0 <= i < samples.len() implies back[i] == samples[i] by {
        let x = samples[i];
        assert(bytes[4 * i] == byte_at(x, 0));
        assert(bytes[4 * i + 1] == byte_at(x, 1));
        assert(bytes[4 * i + 2] == byte_at(x, 2));
        assert(bytes[4 * i + 3] == byte_at(x, 3));
        assert(x % 256 + 0x100 * ((x / 0x100) % 256) + 0x1_0000 * ((x / 0x1_0000) % 256)
            + 0x100_0000 * (x / 0x100_0000) == x);
    }
    assert(back =~= samples);
}

// ---------------------------------------------------------------------------
// The analysis window.

/// The last few values of a series.
#[derive(Debug)]
pub struct SlidingWindow<T> {
    items: VecDeque<T>,
    capacity: usize,
}

impl<T> View for SlidingWindow<T> {
    type V = Seq<T>;

    closed spec fn view(&self) -> Seq<T> {
        self.items@
    }
}

impl<T> SlidingWindow<T> {
    /// How many values are kept.
    pub closed spec fn limit(&self) -> nat {
        self.capacity as nat
    }

    #[verifier::type_invariant]
    spec fn well_formed(self) -> bool {
        self.items@.len() <= self.capacity
    }

    /// An empty window for at most `capacity` values.
    pub fn new(capacity: usize) -> (w: SlidingWindow<T>)
        ensures
            w@ == Seq::<T>::empty(),
            w.limit() == capacity,
    {
        SlidingWindow { items: VecDeque::new(), capacity }
    }

    /// How many values the window holds.
    pub fn len(&self) -> (n: usize)
        ensures
            n == self@.len(),
            n <= self.limit(),
    {
        proof {
            use_type_invariant(self);
        }
        self.items.len()
    }

    /// Adds a value. Where the window was full, its oldest value leaves it and
    /// is returned.
    pub fn push(&mut self, value: T) -> (evicted: Option<T>)
        ensures
            final(self).limit() == old(self).limit(),
            ({
                let all = old(self)@.push(value);
                if all.len() > old(self).limit() {
                    evicted == Some(all[0]) && final(self)@ == all.skip(1)
                } else {
                    evicted is None && final(self)@ == all
                }
            }),
            final(self)@.len() <= final(self).limit(),
    {
        proof {
            use_type_invariant(&*self);
        }
        let capacity = self.capacity;
        let mut items: VecDeque<T> = VecDeque::new();
        std::mem::swap(&mut items, &mut self.items);
        let ghost all = items@.push(value);
        items.push_back(value);
        let evicted = if items.len() > capacity {
            items.pop_front()
        } else {
            None
        };
        assert(all.len() > capacity ==> items@ =~= all.skip(1));
        self.items = items;
        evicted
    }
}

} // verus!
