use vstd::prelude::*;

verus! {

/// Nominal directional intra prediction directions.
#[derive(Clone, Copy, Debug, PartialEq, Eq, Structural)]
pub enum Av2DirectionalBase {
    D45,
    D67,
    Vertical,
    D113,
    D135,
    D157,
    Horizontal,
    D203,
}

/// Luma intra prediction modes, including angle-delta refinements of the
/// nominal directions.
#[derive(Clone, Copy, Debug, PartialEq, Eq, Structural)]
pub enum Av2LumaIntraMode {
    Dc,
    Smooth,
    SmoothVertical,
    SmoothHorizontal,
    Paeth,
    Directional45,
    Directional67,
    Vertical,
    Directional113,
    Directional135,
    Directional157,
    Horizontal,
    Directional203,
    DirectionalDelta { base: Av2DirectionalBase, delta: i8 },
}

/// Chroma intra prediction modes.
#[derive(Clone, Copy, Debug, PartialEq, Eq, Structural)]
pub enum Av2ChromaIntraMode {
    Dc,
    Smooth,
    SmoothVertical,
    SmoothHorizontal,
    Paeth,
    Directional45,
    Directional67,
    Vertical,
    Directional113,
    Directional135,
    Directional157,
    Horizontal,
    Directional203,
}

/// Nominal angle of a direction in degrees.
pub open spec fn base_angle_spec(base: Av2DirectionalBase) -> int {
    match base {
        Av2DirectionalBase::D45 => 45,
        Av2DirectionalBase::D67 => 67,
        Av2DirectionalBase::Vertical => 90,
        Av2DirectionalBase::D113 => 113,
        Av2DirectionalBase::D135 => 135,
        Av2DirectionalBase::D157 => 157,
        Av2DirectionalBase::Horizontal => 180,
        Av2DirectionalBase::D203 => 203,
    }
}

/// Chroma mode of a nominal direction.
pub open spec fn base_chroma_mode_spec(base: Av2DirectionalBase) -> Av2ChromaIntraMode {
    match base {
        Av2DirectionalBase::D45 => Av2ChromaIntraMode::Directional45,
        Av2DirectionalBase::D67 => Av2ChromaIntraMode::Directional67,
        Av2DirectionalBase::Vertical => Av2ChromaIntraMode::Vertical,
        Av2DirectionalBase::D113 => Av2ChromaIntraMode::Directional113,
        Av2DirectionalBase::D135 => Av2ChromaIntraMode::Directional135,
        Av2DirectionalBase::D157 => Av2ChromaIntraMode::Directional157,
        Av2DirectionalBase::Horizontal => Av2ChromaIntraMode::Horizontal,
        Av2DirectionalBase::D203 => Av2ChromaIntraMode::Directional203,
    }
}

/// Angle of a chroma mode that predicts along a direction.
pub open spec fn chroma_directional_angle_spec(mode: Av2ChromaIntraMode) -> Option<i16> {
    match mode {
        Av2ChromaIntraMode::Directional45 => Some(45i16),
        Av2ChromaIntraMode::Directional67 => Some(67i16),
        Av2ChromaIntraMode::Vertical => Some(90i16),
        Av2ChromaIntraMode::Directional113 => Some(113i16),
        Av2ChromaIntraMode::Directional135 => Some(135i16),
        Av2ChromaIntraMode::Directional157 => Some(157i16),
        Av2ChromaIntraMode::Horizontal => Some(180i16),
        Av2ChromaIntraMode::Directional203 => Some(203i16),
        _ => None,
    }
}

/// Nominal direction and angle delta of a directional luma mode.
pub open spec fn luma_directional_spec(mode: Av2LumaIntraMode) -> Option<(Av2DirectionalBase, i8)> {
    match mode {
        Av2LumaIntraMode::Directional45 => Some((Av2DirectionalBase::D45, 0i8)),
        Av2LumaIntraMode::Directional67 => Some((Av2DirectionalBase::D67, 0i8)),
        Av2LumaIntraMode::Vertical => Some((Av2DirectionalBase::Vertical, 0i8)),
        Av2LumaIntraMode::Directional113 => Some((Av2DirectionalBase::D113, 0i8)),
        Av2LumaIntraMode::Directional135 => Some((Av2DirectionalBase::D135, 0i8)),
        Av2LumaIntraMode::Directional157 => Some((Av2DirectionalBase::D157, 0i8)),
        Av2LumaIntraMode::Horizontal => Some((Av2DirectionalBase::Horizontal, 0i8)),
        Av2LumaIntraMode::Directional203 => Some((Av2DirectionalBase::D203, 0i8)),
        Av2LumaIntraMode::DirectionalDelta { base, delta } => Some((base, delta)),
        _ => None,
    }
}

/// Chroma mode predicting like a luma mode (delta refinements map to their
/// nominal direction).
pub open spec fn chroma_mode_for_luma_mode_spec(mode: Av2LumaIntraMode) -> Av2ChromaIntraMode {
    match mode {
        Av2LumaIntraMode::Dc => Av2ChromaIntraMode::Dc,
        Av2LumaIntraMode::Smooth => Av2ChromaIntraMode::Smooth,
        Av2LumaIntraMode::SmoothVertical => Av2ChromaIntraMode::SmoothVertical,
        Av2LumaIntraMode::SmoothHorizontal => Av2ChromaIntraMode::SmoothHorizontal,
        Av2LumaIntraMode::Paeth => Av2ChromaIntraMode::Paeth,
        Av2LumaIntraMode::Directional45 => Av2ChromaIntraMode::Directional45,
        Av2LumaIntraMode::Directional67 => Av2ChromaIntraMode::Directional67,
        Av2LumaIntraMode::Vertical => Av2ChromaIntraMode::Vertical,
        Av2LumaIntraMode::Directional113 => Av2ChromaIntraMode::Directional113,
        Av2LumaIntraMode::Directional135 => Av2ChromaIntraMode::Directional135,
        Av2LumaIntraMode::Directional157 => Av2ChromaIntraMode::Directional157,
        Av2LumaIntraMode::Horizontal => Av2ChromaIntraMode::Horizontal,
        Av2LumaIntraMode::Directional203 => Av2ChromaIntraMode::Directional203,
        Av2LumaIntraMode::DirectionalDelta { base, .. } => base_chroma_mode_spec(base),
    }
}

impl Av2DirectionalBase {
    /// Angle of this direction refined by `delta` steps of three degrees.
    pub fn angle(self, delta: i8) -> (r: i16)
        requires
            -3 <= delta <= 3,
        ensures
            r == base_angle_spec(self) + 3 * delta,
    {
        let base: i16 = match self {
            Av2DirectionalBase::D45 => 45,
            Av2DirectionalBase::D67 => 67,
            Av2DirectionalBase::Vertical => 90,
            Av2DirectionalBase::D113 => 113,
            Av2DirectionalBase::D135 => 135,
            Av2DirectionalBase::D157 => 157,
            Av2DirectionalBase::Horizontal => 180,
            Av2DirectionalBase::D203 => 203,
        };
        base + 3 * delta as i16
    }

    /// Chroma mode predicting along this direction.
    pub fn chroma_mode(self) -> (r: Av2ChromaIntraMode)
        ensures
            r == base_chroma_mode_spec(self),
    {
        match self {
            Av2DirectionalBase::D45 => Av2ChromaIntraMode::Directional45,
            Av2DirectionalBase::D67 => Av2ChromaIntraMode::Directional67,
            Av2DirectionalBase::Vertical => Av2ChromaIntraMode::Vertical,
            Av2DirectionalBase::D113 => Av2ChromaIntraMode::Directional113,
            Av2DirectionalBase::D135 => Av2ChromaIntraMode::Directional135,
            Av2DirectionalBase::D157 => Av2ChromaIntraMode::Directional157,
            Av2DirectionalBase::Horizontal => Av2ChromaIntraMode::Horizontal,
            Av2DirectionalBase::D203 => Av2ChromaIntraMode::Directional203,
        }
    }
}

impl Av2LumaIntraMode {
    /// Nominal direction and angle delta of a directional mode.
    pub fn directional(self) -> (r: Option<(Av2DirectionalBase, i8)>)
        ensures
            r == luma_directional_spec(self),
    {
        match self {
            Av2LumaIntraMode::Directional45 => Some((Av2DirectionalBase::D45, 0)),
            Av2LumaIntraMode::Directional67 => Some((Av2DirectionalBase::D67, 0)),
            Av2LumaIntraMode::Vertical => Some((Av2DirectionalBase::Vertical, 0)),
            Av2LumaIntraMode::Directional113 => Some((Av2DirectionalBase::D113, 0)),
            Av2LumaIntraMode::Directional135 => Some((Av2DirectionalBase::D135, 0)),
            Av2LumaIntraMode::Directional157 => Some((Av2DirectionalBase::D157, 0)),
            Av2LumaIntraMode::Horizontal => Some((Av2DirectionalBase::Horizontal, 0)),
            Av2LumaIntraMode::Directional203 => Some((Av2DirectionalBase::D203, 0)),
            Av2LumaIntraMode::DirectionalDelta { base, delta } => Some((base, delta)),
            _ => None,
        }
    }
}

impl Av2ChromaIntraMode {
    /// Whether the mode predicts horizontally (used to pick the BDPCM
    /// direction).
    pub fn is_horizontal(self) -> (r: bool)
        ensures
            r == (self == Av2ChromaIntraMode::Horizontal),
    {
        match self {
            Av2ChromaIntraMode::Horizontal => true,
            _ => false,
        }
    }
}

/// Angle of a directional chroma mode.
pub fn av2_chroma_directional_angle(mode: Av2ChromaIntraMode) -> (r: Option<i16>)
    ensures
        r == chroma_directional_angle_spec(mode),
{
    match mode {
        Av2ChromaIntraMode::Directional45 => Some(45),
        Av2ChromaIntraMode::Directional67 => Some(67),
        Av2ChromaIntraMode::Vertical => Some(90),
        Av2ChromaIntraMode::Directional113 => Some(113),
        Av2ChromaIntraMode::Directional135 => Some(135),
        Av2ChromaIntraMode::Directional157 => Some(157),
        Av2ChromaIntraMode::Horizontal => Some(180),
        Av2ChromaIntraMode::Directional203 => Some(203),
        _ => None,
    }
}

/// Chroma mode predicting like a luma mode.
pub fn chroma_mode_for_luma_mode(mode: Av2LumaIntraMode) -> (r: Av2ChromaIntraMode)
    ensures
        r == chroma_mode_for_luma_mode_spec(mode),
{
    match mode {
        Av2LumaIntraMode::Dc => Av2ChromaIntraMode::Dc,
        Av2LumaIntraMode::Smooth => Av2ChromaIntraMode::Smooth,
        Av2LumaIntraMode::SmoothVertical => Av2ChromaIntraMode::SmoothVertical,
        Av2LumaIntraMode::SmoothHorizontal => Av2ChromaIntraMode::SmoothHorizontal,
        Av2LumaIntraMode::Paeth => Av2ChromaIntraMode::Paeth,
        Av2LumaIntraMode::Directional45 => Av2ChromaIntraMode::Directional45,
        Av2LumaIntraMode::Directional67 => Av2ChromaIntraMode::Directional67,
        Av2LumaIntraMode::Vertical => Av2ChromaIntraMode::Vertical,
        Av2LumaIntraMode::Directional113 => Av2ChromaIntraMode::Directional113,
        Av2LumaIntraMode::Directional135 => Av2ChromaIntraMode::Directional135,
        Av2LumaIntraMode::Directional157 => Av2ChromaIntraMode::Directional157,
        Av2LumaIntraMode::Horizontal => Av2ChromaIntraMode::Horizontal,
        Av2LumaIntraMode::Directional203 => Av2ChromaIntraMode::Directional203,
        Av2LumaIntraMode::DirectionalDelta { base, .. } => base.chroma_mode(),
    }
}

/// A lossless leaf's coding decision.
#[derive(Clone, Copy, Debug, PartialEq, Eq, Structural)]
pub struct Av2LosslessSubsampledModeDecision {
    pub luma_intra_mode: Av2LumaIntraMode,
    pub luma_bdpcm_horz: Option<bool>,
    pub chroma_use_bdpcm: bool,
    pub chroma_intra_mode: Av2ChromaIntraMode,
    pub use_luma_palette: bool,
    pub use_fsc: bool,
}

/// A lossy leaf's coding decision.
#[derive(Clone, Copy, Debug, PartialEq, Eq, Structural)]
pub struct Av2LossySubsampledModeDecision {
    pub luma_intra_mode: Av2LumaIntraMode,
    pub luma_bdpcm_horz: Option<bool>,
    pub chroma_use_bdpcm: bool,
    pub chroma_intra_mode: Av2ChromaIntraMode,
    pub use_fsc: bool,
}

/// Luma mode actually signalled: BDPCM is coded as horizontal or vertical.
pub open spec fn coded_luma_mode_spec(bdpcm_horz: Option<bool>, mode: Av2LumaIntraMode) -> Av2LumaIntraMode {
    match bdpcm_horz {
        Some(true) => Av2LumaIntraMode::Horizontal,
        Some(false) => Av2LumaIntraMode::Vertical,
        None => mode,
    }
}

impl Default for Av2LosslessSubsampledModeDecision {
    /// The default decision: DC luma, horizontal chroma, no BDPCM, palette or
    /// forward-skip coding.
    fn default() -> (r: Self)
        ensures
            r.luma_intra_mode == Av2LumaIntraMode::Dc,
            r.luma_bdpcm_horz.is_none(),
            !r.chroma_use_bdpcm,
            r.chroma_intra_mode == Av2ChromaIntraMode::Horizontal,
            !r.use_luma_palette,
            !r.use_fsc,
    {
        Av2LosslessSubsampledModeDecision {
            luma_intra_mode: Av2LumaIntraMode::Dc,
            luma_bdpcm_horz: None,
            chroma_use_bdpcm: false,
            chroma_intra_mode: Av2ChromaIntraMode::Horizontal,
            use_luma_palette: false,
            use_fsc: false,
        }
    }

}

impl Av2LosslessSubsampledModeDecision {
    /// Luma mode actually signalled.
    pub fn coded_luma_mode(self) -> (r: Av2LumaIntraMode)
        ensures
            r == coded_luma_mode_spec(self.luma_bdpcm_horz, self.luma_intra_mode),
    {
        match self.luma_bdpcm_horz {
            Some(true) => Av2LumaIntraMode::Horizontal,
            Some(false) => Av2LumaIntraMode::Vertical,
            None => self.luma_intra_mode,
        }
    }
}

impl Default for Av2LossySubsampledModeDecision {
    /// The default decision: DC luma, horizontal chroma, no BDPCM or
    /// forward-skip coding.
    fn default() -> (r: Self)
        ensures
            r.luma_intra_mode == Av2LumaIntraMode::Dc,
            r.luma_bdpcm_horz.is_none(),
            !r.chroma_use_bdpcm,
            r.chroma_intra_mode == Av2ChromaIntraMode::Horizontal,
            !r.use_fsc,
    {
        Av2LossySubsampledModeDecision {
            luma_intra_mode: Av2LumaIntraMode::Dc,
            luma_bdpcm_horz: None,
            chroma_use_bdpcm: false,
            chroma_intra_mode: Av2ChromaIntraMode::Horizontal,
            use_fsc: false,
        }
    }

}

impl Av2LossySubsampledModeDecision {
    /// Luma mode actually signalled.
    pub fn coded_luma_mode(self) -> (r: Av2LumaIntraMode)
        ensures
            r == coded_luma_mode_spec(self.luma_bdpcm_horz, self.luma_intra_mode),
    {
        match self.luma_bdpcm_horz {
            Some(true) => Av2LumaIntraMode::Horizontal,
            Some(false) => Av2LumaIntraMode::Vertical,
            None => self.luma_intra_mode,
        }
    }
}

/// Directional angle of a lossless decision's chroma prediction: the luma
/// angle (with its delta) when chroma follows the luma direction, otherwise
/// the chroma mode's nominal angle.
pub open spec fn chroma_directional_angle_for_mode_spec(mode: Av2LosslessSubsampledModeDecision) -> Option<i16> {
    match luma_directional_spec(mode.luma_intra_mode) {
        Some((base, delta)) => if base_chroma_mode_spec(base) == mode.chroma_intra_mode {
            Some((base_angle_spec(base) + 3 * delta) as i16)
        } else {
            chroma_directional_angle_spec(mode.chroma_intra_mode)
        },
        None => chroma_directional_angle_spec(mode.chroma_intra_mode),
    }
}

/// Directional angle used for a lossless decision's chroma prediction.
pub fn chroma_directional_angle_for_mode(mode: Av2LosslessSubsampledModeDecision) -> (r: Option<i16>)
    requires
        luma_directional_spec(mode.luma_intra_mode) matches Some((_, d)) ==> -3 <= d <= 3,
    ensures
        r == chroma_directional_angle_for_mode_spec(mode),
{
    if let Some((base, delta)) = mode.luma_intra_mode.directional() {
        if base.chroma_mode() == mode.chroma_intra_mode {
            return Some(base.angle(delta));
        }
    }
    av2_chroma_directional_angle(mode.chroma_intra_mode)
}

/// Angle of a luma mode that predicts along a direction other than straight
/// down or straight across.
pub open spec fn luma_idif_angle_spec(mode: Av2LumaIntraMode) -> Option<i16> {
    match luma_directional_spec(mode) {
        Some((base, delta)) => {
            let angle = base_angle_spec(base) + 3 * delta;
            if angle != 90 && angle != 180 {
                Some(angle as i16)
            } else {
                None
            }
        },
        None => None,
    }
}

/// Angle of a luma mode predicted with the interpolating directional filter:
/// every directional mode but exact vertical (90) and horizontal (180).
pub fn lossy_luma_idif_angle(mode: Av2LumaIntraMode) -> (r: Option<i16>)
    requires
        luma_directional_spec(mode) matches Some((_, d)) ==> -3 <= d <= 3,
    ensures
        r == luma_idif_angle_spec(mode),
{
    match mode.directional() {
        Some((base, delta)) => {
            let angle = base.angle(delta);
            if angle != 90 && angle != 180 {
                Some(angle)
            } else {
                None
            }
        },
        None => None,
    }
}

} // verus!
