//! The course of one conversion.
//!
//! The compression engine is driven by the caller. The session kept here
//! tells the caller which step comes next, given how the last one went, and
//! sees to it that every handle the engine gave out is released before the
//! conversion ends, whichever step failed.

use crate::cli::{settled, Args, Effective};
use crate::encoder::{built, EncoderConfig, ValidationError};
use crate::metadata::{DecodeError, DecodedImage, ImageLayout, TiffMeta};
use crate::planar::{planarize, planarized, PlanarImage, PlanarizeError};
use vstd::prelude::*;

verus! {

/// A step that the caller carries out.
#[derive(Debug, Clone, Copy, PartialEq, Eq)]
pub enum Action {
    /// Create the engine's image, attach the colour profile and hand over
    /// the planes.
    CreateImage,
    /// Create the compressor and set its thread count.
    CreateCodec,
    /// Hand the configuration and the image to the compressor.
    SetupEncoder,
    /// Open the output stream.
    OpenStream,
    StartCompress,
    Encode,
    EndCompress,
    ReleaseStream,
    ReleaseCodec,
    ReleaseImage,
    /// Place the resolution box in the written container.
    InsertResolutionBox,
    /// Append the metadata packet to the written container.
    AppendXmpBox,
    /// Nothing is left to do.
    Finish,
}

/// The step of the engine that made a conversion fail.
#[derive(Debug, Clone, Copy, PartialEq, Eq)]
pub enum CodecFailure {
    ImageCreate,
    CodecCreate,
    SetupEncoder,
    StreamCreate,
    StartCompress,
    /// Encoding or the end of the compression failed.
    Compression,
}

/// The metadata boxes that a conversion adds to the container.
#[derive(Debug, Clone, Copy, PartialEq, Eq)]
pub struct MetadataPlan {
    pub res_box: bool,
    pub xmp_box: bool,
}

/// The state of one conversion between two steps.
#[derive(Debug, Clone, Copy, PartialEq, Eq)]
pub struct Session {
    /// The step that the caller carries out now.
    pub pending: Action,
    /// The image handle is held.
    pub image: bool,
    /// The compressor handle is held.
    pub codec: bool,
    /// The stream handle is held.
    pub stream: bool,
    /// Encoding went well.
    pub encoded: bool,
    /// The step that failed, if one did.
    pub failure: Option<CodecFailure>,
    /// The metadata boxes to add after a successful compression.
    pub plan: MetadataPlan,
}

/// The metadata boxes that the switches and the image ask for: each box is
/// added if its switch is on and the image gives both densities.
pub open spec fn planned(eff: Effective, meta: TiffMeta) -> MetadataPlan {
    MetadataPlan {
        res_box: eff.dpi_box && meta.xdpi is Some && meta.ydpi is Some,
        xmp_box: eff.xmp_dpi && meta.xdpi is Some && meta.ydpi is Some,
    }
}

/// Decides which metadata boxes a conversion adds.
pub fn plan_metadata(eff: Effective, meta: &TiffMeta) -> (plan: MetadataPlan)
    ensures
        plan == planned(eff, *meta),
{
    let both: bool = meta.xdpi.is_some() && meta.ydpi.is_some();
    MetadataPlan { res_box: eff.dpi_box && both, xmp_box: eff.xmp_dpi && both }
}

/// The number of worker threads for the compression engine: the number
/// asked for, or all that the machine offers where zero was asked for, and
/// one where the machine does not say; at most `i32::MAX`.
pub open spec fn threads_for(requested: usize, available: Option<usize>) -> int {
    let wanted: int = if requested != 0 {
        requested as int
    } else {
        match available {
            Some(n) => n as int,
            None => 1,
        }
    };
    if wanted > i32::MAX {
        i32::MAX as int
    } else {
        wanted
    }
}

/// Settles the number of worker threads for the compression engine.
pub fn codec_threads(requested: usize, available: Option<usize>) -> (n: i32)
    ensures
        n == threads_for(requested, available),
{
    let wanted: usize = if requested != 0 {
        requested
    } else {
        match available {
            Some(n) => n,
            None => 1,
        }
    };
    if wanted > i32::MAX as usize {
        i32::MAX
    } else {
        wanted as i32
    }
}

/// The colour profile that is attached to the image: the one given on the
/// command line, else the one embedded in the image; none where that one
/// is empty.
pub open spec fn profile_for(given: Option<Seq<u8>>, embedded: Option<Seq<u8>>) -> Option<Seq<u8>> {
    let chosen = if given is Some {
        given
    } else {
        embedded
    };
    match chosen {
        Some(p) => if p.len() > 0 {
            Some(p)
        } else {
            None
        },
        None => None,
    }
}

/// Picks the colour profile that is attached to the image.
pub fn choose_icc(given: Option<Vec<u8>>, embedded: Option<Vec<u8>>) -> (icc: Option<Vec<u8>>)
    ensures
        crate::metadata::bytes_view(icc) == profile_for(
            crate::metadata::bytes_view(given),
            crate::metadata::bytes_view(embedded),
        ),
{
    let chosen = match given {
        Some(p) => Some(p),
        None => embedded,
    };
    match chosen {
        Some(p) => {
            if p.len() > 0 {
                Some(p)
            } else {
                None
            }
        },
        None => None,
    }
}

/// The first metadata step of a plan, from the resolution box on.
pub open spec fn first_metadata_step(plan: MetadataPlan) -> Action {
    if plan.res_box {
        Action::InsertResolutionBox
    } else if plan.xmp_box {
        Action::AppendXmpBox
    } else {
        Action::Finish
    }
}

/// The state after the pending step ended, well (`ok`) or not.
pub open spec fn next_state(s: Session, ok: bool) -> Session {
    match s.pending {
        Action::CreateImage => if ok {
            Session { pending: Action::CreateCodec, image: true, ..s }
        } else {
            Session { pending: Action::Finish, failure: Some(CodecFailure::ImageCreate), ..s }
        },
        Action::CreateCodec => if ok {
            Session { pending: Action::SetupEncoder, codec: true, ..s }
        } else {
            Session { pending: Action::ReleaseImage, failure: Some(CodecFailure::CodecCreate), ..s }
        },
        Action::SetupEncoder => if ok {
            Session { pending: Action::OpenStream, ..s }
        } else {
            Session { pending: Action::ReleaseCodec, failure: Some(CodecFailure::SetupEncoder), ..s }
        },
        Action::OpenStream => if ok {
            Session { pending: Action::StartCompress, stream: true, ..s }
        } else {
            Session { pending: Action::ReleaseCodec, failure: Some(CodecFailure::StreamCreate), ..s }
        },
        Action::StartCompress => if ok {
            Session { pending: Action::Encode, ..s }
        } else {
            Session {
                pending: Action::ReleaseStream,
                failure: Some(CodecFailure::StartCompress),
                ..s
            }
        },
        Action::Encode => Session { pending: Action::EndCompress, encoded: ok, ..s },
        Action::EndCompress => if s.encoded && ok {
            Session { pending: Action::ReleaseStream, ..s }
        } else {
            Session { pending: Action::ReleaseStream, failure: Some(CodecFailure::Compression), ..s }
        },
        Action::ReleaseStream => Session { pending: Action::ReleaseCodec, stream: false, ..s },
        Action::ReleaseCodec => Session { pending: Action::ReleaseImage, codec: false, ..s },
        Action::ReleaseImage => if s.failure is None {
            Session { pending: first_metadata_step(s.plan), image: false, ..s }
        } else {
            Session { pending: Action::Finish, image: false, ..s }
        },
        Action::InsertResolutionBox => if s.plan.xmp_box {
            Session { pending: Action::AppendXmpBox, ..s }
        } else {
            Session { pending: Action::Finish, ..s }
        },
        Action::AppendXmpBox => Session { pending: Action::Finish, ..s },
        Action::Finish => s,
    }
}

/// The handles that are held while a step is pending, and what is known of
/// the failure then.
pub open spec fn consistent(s: Session) -> bool {
    match s.pending {
        Action::CreateImage => !s.image && !s.codec && !s.stream && s.failure is None,
        Action::CreateCodec => s.image && !s.codec && !s.stream && s.failure is None,
        Action::SetupEncoder => s.image && s.codec && !s.stream && s.failure is None,
        Action::OpenStream => s.image && s.codec && !s.stream && s.failure is None,
        Action::StartCompress => s.image && s.codec && s.stream && s.failure is None,
        Action::Encode => s.image && s.codec && s.stream && s.failure is None,
        Action::EndCompress => s.image && s.codec && s.stream && s.failure is None,
        Action::ReleaseStream => s.image && s.codec && s.stream,
        Action::ReleaseCodec => s.image && s.codec && !s.stream,
        Action::ReleaseImage => s.image && !s.codec && !s.stream,
        Action::InsertResolutionBox => !s.image && !s.codec && !s.stream && s.failure is None
            && s.plan.res_box,
        Action::AppendXmpBox => !s.image && !s.codec && !s.stream && s.failure is None
            && s.plan.xmp_box,
        Action::Finish => !s.image && !s.codec && !s.stream,
    }
}

/// The number of steps that are left at most.
pub open spec fn steps_left(s: Session) -> nat {
    match s.pending {
        Action::CreateImage => 12,
        Action::CreateCodec => 11,
        Action::SetupEncoder => 10,
        Action::OpenStream => 9,
        Action::StartCompress => 8,
        Action::Encode => 7,
        Action::EndCompress => 6,
        Action::ReleaseStream => 5,
        Action::ReleaseCodec => 4,
        Action::ReleaseImage => 3,
        Action::InsertResolutionBox => 2,
        Action::AppendXmpBox => 1,
        Action::Finish => 0,
    }
}

impl Session {
    /// Begins a conversion: nothing is held, and the first step is the
    /// creation of the image.
    pub fn start(plan: MetadataPlan) -> (s: Session)
        ensures
            s == (Session {
                pending: Action::CreateImage,
                image: false,
                codec: false,
                stream: false,
                encoded: false,
                failure: None,
                plan,
            }),
            consistent(s),
    {
        Session {
            pending: Action::CreateImage,
            image: false,
            codec: false,
            stream: false,
            encoded: false,
            failure: None,
            plan,
        }
    }

    /// Takes note of how the pending step went and tells the next one.
    pub fn advance(&mut self, ok: bool) -> (next: Action)
        ensures
            *final(self) == next_state(*old(self), ok),
            next == final(self).pending,
            consistent(*old(self)) ==> consistent(*final(self)),
            old(self).pending != Action::Finish ==> steps_left(*final(self)) < steps_left(
                *old(self),
            ),
    {
        match self.pending {
            Action::CreateImage => {
                if ok {
                    self.image = true;
                    self.pending = Action::CreateCodec;
                } else {
                    self.failure = Some(CodecFailure::ImageCreate);
                    self.pending = Action::Finish;
                }
            },
            Action::CreateCodec => {
                if ok {
                    self.codec = true;
                    self.pending = Action::SetupEncoder;
                } else {
                    self.failure = Some(CodecFailure::CodecCreate);
                    self.pending = Action::ReleaseImage;
                }
            },
            Action::SetupEncoder => {
                if ok {
                    self.pending = Action::OpenStream;
                } else {
                    self.failure = Some(CodecFailure::SetupEncoder);
                    self.pending = Action::ReleaseCodec;
                }
            },
            Action::OpenStream => {
                if ok {
                    self.stream = true;
                    self.pending = Action::StartCompress;
                } else {
                    self.failure = Some(CodecFailure::StreamCreate);
                    self.pending = Action::ReleaseCodec;
                }
            },
            Action::StartCompress => {
                if ok {
                    self.pending = Action::Encode;
                } else {
                    self.failure = Some(CodecFailure::StartCompress);
                    self.pending = Action::ReleaseStream;
                }
            },
            Action::Encode => {
                self.encoded = ok;
                self.pending = Action::EndCompress;
            },
            Action::EndCompress => {
                if !(self.encoded && ok) {
                    self.failure = Some(CodecFailure::Compression);
                }
                self.pending = Action::ReleaseStream;
            },
            Action::ReleaseStream => {
                self.stream = false;
                self.pending = Action::ReleaseCodec;
            },
            Action::ReleaseCodec => {
                self.codec = false;
                self.pending = Action::ReleaseImage;
            },
            Action::ReleaseImage => {
                self.image = false;
                self.pending = if self.failure.is_some() {
                    Action::Finish
                } else if self.plan.res_box {
                    Action::InsertResolutionBox
                } else if self.plan.xmp_box {
                    Action::AppendXmpBox
                } else {
                    Action::Finish
                };
            },
            Action::InsertResolutionBox => {
                self.pending = if self.plan.xmp_box {
                    Action::AppendXmpBox
                } else {
                    Action::Finish
                };
            },
            Action::AppendXmpBox => {
                self.pending = Action::Finish;
            },
            Action::Finish => {},
        }
        self.pending
    }

    /// How the conversion ended: well, or with the step that failed.
    pub fn outcome(&self) -> (r: Result<(), CodecFailure>)
        ensures
            r == match self.failure {
                Some(f) => Err::<(), CodecFailure>(f),
                None => Ok::<(), CodecFailure>(()),
            },
    {
        match self.failure {
            Some(f) => Err(f),
            None => Ok(()),
        }
    }
}

/// The state at the beginning of a conversion.
pub open spec fn start_state(plan: MetadataPlan) -> Session {
    Session {
        pending: Action::CreateImage,
        image: false,
        codec: false,
        stream: false,
        encoded: false,
        failure: None,
        plan,
    }
}

/// The state after the steps went as `outcomes` says, one after the other.
pub open spec fn run(s: Session, outcomes: Seq<bool>) -> Session
    decreases outcomes.len(),
{
    if outcomes.len() == 0 {
        s
    } else {
        run(next_state(s, outcomes[0]), outcomes.drop_first())
    }
}

/// Every step keeps the handles in line with the pending step, and brings
/// the end nearer.
pub proof fn lemma_step_keeps_consistent(s: Session, ok: bool)
    requires
        consistent(s),
    ensures
        consistent(next_state(s, ok)),
        s.pending != Action::Finish ==> steps_left(next_state(s, ok)) < steps_left(s),
        s.pending == Action::Finish ==> next_state(s, ok) == s,
{
}

/// A run that is long enough for the steps that are left ends with
/// nothing held.
pub proof fn lemma_run_ends(s: Session, outcomes: Seq<bool>)
    requires
        consistent(s),
        steps_left(s) <= outcomes.len(),
    ensures
        run(s, outcomes).pending == Action::Finish,
        consistent(run(s, outcomes)),
        !run(s, outcomes).image,
        !run(s, outcomes).codec,
        !run(s, outcomes).stream,
    decreases outcomes.len(),
{
    if outcomes.len() > 0 {
        lemma_step_keeps_consistent(s, outcomes[0]);
        lemma_run_ends(next_state(s, outcomes[0]), outcomes.drop_first());
    }
}

/// Every conversion releases what it acquired: however its steps go,
/// after twelve steps none is left and no handle is held.
pub proof fn lemma_conversion_releases_handles(plan: MetadataPlan, outcomes: Seq<bool>)
    requires
        outcomes.len() >= 12,
    ensures
        run(start_state(plan), outcomes).pending == Action::Finish,
        !run(start_state(plan), outcomes).image,
        !run(start_state(plan), outcomes).codec,
        !run(start_state(plan), outcomes).stream,
{
    lemma_run_ends(start_state(plan), outcomes);
}

/// The metadata steps and the releases never change how a conversion
/// ends: a box that could not be added leaves a successful conversion
/// successful.
pub proof fn lemma_metadata_is_best_effort(s: Session, ok: bool)
    requires
        s.pending == Action::InsertResolutionBox || s.pending == Action::AppendXmpBox || s.pending
            == Action::ReleaseStream || s.pending == Action::ReleaseCodec || s.pending
            == Action::ReleaseImage || s.pending == Action::Finish,
    ensures
        next_state(s, ok).failure == s.failure,
{
}

/// A failure, once noted, stays.
pub proof fn lemma_failure_stays(s: Session, outcomes: Seq<bool>)
    requires
        consistent(s),
        s.failure is Some,
    ensures
        run(s, outcomes).failure == s.failure,
    decreases outcomes.len(),
{
    if outcomes.len() > 0 {
        lemma_step_keeps_consistent(s, outcomes[0]);
        lemma_failure_stays(next_state(s, outcomes[0]), outcomes.drop_first());
    }
}

/// From the release of the stream on, a conversion without a failure ends
/// without one.
proof fn lemma_success_stays(s: Session, outcomes: Seq<bool>)
    requires
        consistent(s),
        s.failure is None,
        steps_left(s) <= 5,
    ensures
        run(s, outcomes).failure is None,
    decreases outcomes.len(),
{
    if outcomes.len() > 0 {
        lemma_step_keeps_consistent(s, outcomes[0]);
        lemma_success_stays(next_state(s, outcomes[0]), outcomes.drop_first());
    }
}

/// A run of `n` engine steps that all go well leaves the next engine step
/// pending and no failure noted.
proof fn lemma_engine_prefix(s: Session, outcomes: Seq<bool>, n: int)
    requires
        consistent(s),
        s.failure is None,
        s.pending == Action::EndCompress ==> s.encoded,
        0 <= n <= outcomes.len(),
        n == 0 || n <= steps_left(s) - 5,
        forall|i: int| 0 <= i < n ==> outcomes[i],
    ensures
        consistent(run(s, outcomes.subrange(0, n))),
        run(s, outcomes.subrange(0, n)).failure is None,
        steps_left(run(s, outcomes.subrange(0, n))) == steps_left(s) - n,
        run(s, outcomes.subrange(0, n)).pending == Action::EndCompress ==> run(
            s,
            outcomes.subrange(0, n),
        ).encoded,
    decreases n,
{
    let head = outcomes.subrange(0, n);
    if n > 0 {
        assert(head[0] == outcomes[0]);
        assert(outcomes[0]);
        assert(head.drop_first() =~= outcomes.drop_first().subrange(0, n - 1));
        lemma_step_keeps_consistent(s, outcomes[0]);
        assert forall|i: int| 0 <= i < n - 1 implies outcomes.drop_first()[i] by {
            assert(outcomes[i + 1]);
        }
        lemma_engine_prefix(next_state(s, outcomes[0]), outcomes.drop_first(), n - 1);
    }
}

/// A run is the run of its first part, carried on by the rest.
proof fn lemma_run_split(s: Session, outcomes: Seq<bool>, n: int)
    requires
        0 <= n <= outcomes.len(),
    ensures
        run(s, outcomes) == run(
            run(s, outcomes.subrange(0, n)),
            outcomes.subrange(n, outcomes.len() as int),
        ),
    decreases n,
{
    if n == 0 {
        assert(outcomes.subrange(0, outcomes.len() as int) =~= outcomes);
    } else {
        let head = outcomes.subrange(0, n);
        assert(head[0] == outcomes[0]);
        assert(head.drop_first() =~= outcomes.drop_first().subrange(0, n - 1));
        assert(outcomes.subrange(n, outcomes.len() as int) =~= outcomes.drop_first().subrange(
            n - 1,
            outcomes.len() - 1,
        ));
        lemma_run_split(next_state(s, outcomes[0]), outcomes.drop_first(), n - 1);
    }
}

/// The index of the first step from `from` on that did not go well; the
/// number of steps where all went well.
pub open spec fn first_failed(outcomes: Seq<bool>, from: int) -> int
    decreases outcomes.len() - from,
{
    if from < 0 || from >= outcomes.len() || !outcomes[from] {
        from
    } else {
        first_failed(outcomes, from + 1)
    }
}

/// All steps before the first one that did not go well went well, and that
/// one comes no later than any step that did not go well.
proof fn lemma_first_failed(outcomes: Seq<bool>, from: int, bad: int)
    requires
        0 <= from <= bad < outcomes.len(),
        !outcomes[bad],
    ensures
        from <= first_failed(outcomes, from) <= bad,
        !outcomes[first_failed(outcomes, from)],
        forall|i: int| from <= i < first_failed(outcomes, from) ==> outcomes[i],
    decreases outcomes.len() - from,
{
    if outcomes[from] {
        lemma_first_failed(outcomes, from + 1, bad);
    }
}

/// A conversion ends well exactly if its seven engine steps go well: the
/// creation of image and compressor, the setup, the opening of the stream,
/// the start, the encoding and the end of the compression.
pub proof fn lemma_success_needs_every_engine_step(plan: MetadataPlan, outcomes: Seq<bool>)
    requires
        outcomes.len() >= 12,
    ensures
        run(start_state(plan), outcomes).failure is None <==> (forall|i: int|
            0 <= i < 7 ==> outcomes[i]),
{
    let s = start_state(plan);
    if forall|i: int| 0 <= i < 7 ==> outcomes[i] {
        lemma_engine_prefix(s, outcomes, 7);
        lemma_run_split(s, outcomes, 7);
        lemma_success_stays(
            run(s, outcomes.subrange(0, 7)),
            outcomes.subrange(7, outcomes.len() as int),
        );
    } else {
        let bad = choose|i: int| 0 <= i < 7 && !outcomes[i];
        lemma_first_failed(outcomes, 0, bad);
        let first = first_failed(outcomes, 0);
        lemma_engine_prefix(s, outcomes, first);
        lemma_run_split(s, outcomes, first);
        let at = run(s, outcomes.subrange(0, first));
        let rest = outcomes.subrange(first, outcomes.len() as int);
        assert(run(s, outcomes) == run(at, rest));
        assert(rest[0] == outcomes[first]);
        let after = next_state(at, rest[0]);
        assert(run(at, rest) == run(after, rest.drop_first()));
        lemma_step_keeps_consistent(at, rest[0]);
        if at.pending == Action::Encode {
            let tail = rest.drop_first();
            let ended = next_state(after, tail[0]);
            assert(run(after, tail) == run(ended, tail.drop_first()));
            lemma_step_keeps_consistent(after, tail[0]);
            assert(ended.failure is Some);
            lemma_failure_stays(ended, tail.drop_first());
        } else {
            assert(after.failure is Some);
            lemma_failure_stays(after, rest.drop_first());
        }
    }
}

/// Why a conversion failed.
#[derive(Debug, Clone, Copy, PartialEq, Eq)]
pub enum ConvertError {
    /// The decoded image cannot be converted.
    Decode(DecodeError),
    /// An argument is at fault.
    Validation(ValidationError),
    /// The planes could not be made.
    Planarize(PlanarizeError),
    /// A step of the compression engine failed.
    Codec(CodecFailure),
}

/// Everything that the compression engine is handed for one image.
#[derive(Debug)]
pub struct Prepared {
    pub width: u32,
    pub height: u32,
    pub layout: ImageLayout,
    pub planes: PlanarImage,
    pub config: EncoderConfig,
    pub meta: TiffMeta,
    pub plan: MetadataPlan,
}

/// What `prepare` owes for a decoded image. The first fault decides the
/// error, in the order arguments, shape of the pixel buffer; only the
/// memory for the planes can fail beyond that.
pub open spec fn prepared(
    res: Result<Prepared, ConvertError>,
    meta: TiffMeta,
    image: DecodedImage,
    tile: Seq<char>,
    block: Seq<char>,
    levels: Seq<char>,
    toggles: crate::encoder::Toggles,
    eff: Effective,
) -> bool {
    let size = (image.width, image.height);
    let src = image.pixels.samples();
    match res {
        Ok(p) => {
            &&& p.width == image.width
            &&& p.height == image.height
            &&& p.layout == image.layout
            &&& built(Ok(p.config), tile, block, levels, size, image.layout.rgb, toggles)
            &&& p.config.wf()
            &&& planarized(Ok(p.planes), src, image.width, image.height, image.layout.channels)
            &&& p.meta == meta
            &&& p.plan == planned(eff, meta)
        },
        Err(ConvertError::Validation(e)) => built(
            Err(e),
            tile,
            block,
            levels,
            size,
            image.layout.rgb,
            toggles,
        ),
        Err(ConvertError::Planarize(e)) => {
            &&& exists|config: EncoderConfig|
                built(Ok(config), tile, block, levels, size, image.layout.rgb, toggles)
            &&& planarized(Err(e), src, image.width, image.height, image.layout.channels)
        },
        Err(_) => false,
    }
}

/// Works out everything that the compression engine is handed for a
/// decoded image: the planes, the configuration, and the boxes to add for
/// the metadata `meta`. `vector_available` says whether the machine has
/// the vector unit; the lane-wise kernels run only if it does and they
/// were asked for.
pub fn prepare(meta: TiffMeta, image: DecodedImage, args: &Args, vector_available: bool) -> (res:
    Result<Prepared, ConvertError>)
    ensures
        prepared(
            res,
            meta,
            image,
            args.tile@,
            args.block@,
            args.levels@,
            args.toggles_spec(),
            Effective {
                avx2: settled(args.avx2_on, args.avx2_off, false),
                dpi_box: settled(args.dpi_box_on, args.dpi_box_off, true),
                xmp_dpi: settled(args.xmp_dpi_on, args.xmp_dpi_off, true),
            },
        ),
{
    let eff = args.effective();
    let config = match args.encoder_config((image.width, image.height), image.layout.rgb) {
        Ok(c) => c,
        Err(e) => {
            return Err(ConvertError::Validation(e));
        },
    };
    let use_vector: bool = eff.avx2 && vector_available;
    let planes = match planarize(
        &image.pixels,
        image.width,
        image.height,
        image.layout.channels,
        use_vector,
    ) {
        Ok(p) => p,
        Err(e) => {
            return Err(ConvertError::Planarize(e));
        },
    };
    let plan = plan_metadata(eff, &meta);
    Ok(
        Prepared {
            width: image.width,
            height: image.height,
            layout: image.layout,
            planes,
            config,
            meta,
            plan,
        },
    )
}

} // verus!
