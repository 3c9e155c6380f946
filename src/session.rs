//! The typed description of a session, and its abstract view.
use vstd::prelude::*;

verus! {

/// How the output directory is prepared.
#[derive(Debug, PartialEq)]
pub enum SessionPath {
    /// Cleared, then created.
    Replace(String),
    /// Created if absent.
    Append(String),
}

/// What is produced per instance.
#[derive(PartialEq, Eq, Structural, Clone, Copy, Debug)]
pub enum SessionStyle {
    Still,
    StillDepth,
    Moving,
    MovingDepth,
}

/// How images are stored.
#[derive(PartialEq, Eq, Structural, Clone, Copy, Debug)]
pub enum SessionFormat {
    BMP,
    PNG,
    ProtoBuf,
}

/// A scalar distribution; each number is the real literal that the configuration wrote.
#[derive(Debug, PartialEq)]
pub enum SessionDistribution {
    /// The same value for every instance.
    Constant(String),
    /// Mean and standard deviation of a normal distribution.
    Normal(String, String),
}

#[derive(Debug, PartialEq)]
pub struct SessionXYZ {
    pub x: SessionDistribution,
    pub y: SessionDistribution,
    pub z: SessionDistribution,
}

#[derive(Debug, PartialEq)]
pub struct SessionYPB {
    pub y: SessionDistribution,
    pub p: SessionDistribution,
    pub b: SessionDistribution,
}

#[derive(Debug, PartialEq)]
pub struct SessionRGB {
    pub r: SessionDistribution,
    pub g: SessionDistribution,
    pub b: SessionDistribution,
}

#[derive(Debug, PartialEq)]
pub enum SessionBackground {
    /// A solid color, drawn per instance.
    Color(SessionRGB),
    /// A random crop of a random image of this directory.
    Image(String),
}

/// The aspect ratio of a perspective projection.
#[derive(Debug, PartialEq)]
pub enum SessionAspect {
    Value(String),
    /// Numerator and denominator.
    Ratio(String, String),
}

/// A perspective projection: vertical field of view, aspect, near and far planes.
#[derive(Debug, PartialEq)]
pub struct SessionProjection {
    pub fovy: String,
    pub aspect: SessionAspect,
    pub near: String,
    pub far: String,
}

/// Output size in pixels.
#[derive(Debug, PartialEq)]
pub struct SessionSize {
    pub x: usize,
    pub y: usize,
}

#[derive(Debug, PartialEq)]
pub struct Session {
    pub name: String,
    pub path: SessionPath,
    pub csv: String,
    pub count: usize,
    pub style: SessionStyle,
    pub format: SessionFormat,
    pub size: SessionSize,
    pub projection: SessionProjection,
    pub head_pos: SessionXYZ,
    pub head_dir: SessionYPB,
    pub lefteye: SessionYPB,
    pub righteye: SessionYPB,
    pub light_dir: SessionYPB,
    pub light_color: SessionRGB,
    pub background: SessionBackground,
    pub ambient_color: SessionRGB,
    pub skin_color: SessionRGB,
    pub sclera_color: SessionRGB,
    pub iris_color: SessionRGB,
}

pub enum PathView {
    Replace(Seq<char>),
    Append(Seq<char>),
}

pub enum DistributionView {
    Constant(Seq<char>),
    Normal(Seq<char>, Seq<char>),
}

/// Three distributions, in the order the block's keys are listed.
pub type Triple = (DistributionView, DistributionView, DistributionView);

pub enum BackgroundView {
    Color(Triple),
    Image(Seq<char>),
}

pub enum AspectView {
    Value(Seq<char>),
    Ratio(Seq<char>, Seq<char>),
}

pub struct ProjectionView {
    pub fovy: Seq<char>,
    pub aspect: AspectView,
    pub near: Seq<char>,
    pub far: Seq<char>,
}

pub struct SessionView {
    pub name: Seq<char>,
    pub path: PathView,
    pub csv: Seq<char>,
    pub count: usize,
    pub style: SessionStyle,
    pub format: SessionFormat,
    pub size: (usize, usize),
    pub projection: ProjectionView,
    pub head_pos: Triple,
    pub head_dir: Triple,
    pub lefteye: Triple,
    pub righteye: Triple,
    pub light_dir: Triple,
    pub light_color: Triple,
    pub background: BackgroundView,
    pub ambient_color: Triple,
    pub skin_color: Triple,
    pub sclera_color: Triple,
    pub iris_color: Triple,
}

impl View for SessionPath {
    type V = PathView;

    open spec fn view(&self) -> PathView {
        match self {
            SessionPath::Replace(p) => PathView::Replace(p@),
            SessionPath::Append(p) => PathView::Append(p@),
        }
    }
}

impl View for SessionDistribution {
    type V = DistributionView;

    open spec fn view(&self) -> DistributionView {
        match self {
            SessionDistribution::Constant(v) => DistributionView::Constant(v@),
            SessionDistribution::Normal(m, s) => DistributionView::Normal(m@, s@),
        }
    }
}

impl View for SessionXYZ {
    type V = Triple;

    open spec fn view(&self) -> Triple {
        (self.x@, self.y@, self.z@)
    }
}

impl View for SessionYPB {
    type V = Triple;

    open spec fn view(&self) -> Triple {
        (self.y@, self.p@, self.b@)
    }
}

impl View for SessionRGB {
    type V = Triple;

    open spec fn view(&self) -> Triple {
        (self.r@, self.g@, self.b@)
    }
}

impl View for SessionBackground {
    type V = BackgroundView;

    open spec fn view(&self) -> BackgroundView {
        match self {
            SessionBackground::Color(c) => BackgroundView::Color(c@),
            SessionBackground::Image(d) => BackgroundView::Image(d@),
        }
    }
}

impl View for SessionAspect {
    type V = AspectView;

    open spec fn view(&self) -> AspectView {
        match self {
            SessionAspect::Value(v) => AspectView::Value(v@),
            SessionAspect::Ratio(n, d) => AspectView::Ratio(n@, d@),
        }
    }
}

impl View for SessionProjection {
    type V = ProjectionView;

    open spec fn view(&self) -> ProjectionView {
        ProjectionView {
            fovy: self.fovy@,
            aspect: self.aspect@,
            near: self.near@,
            far: self.far@,
        }
    }
}

impl View for Session {
    type V = SessionView;

    open spec fn view(&self) -> SessionView {
        SessionView {
            name: self.name@,
            path: self.path@,
            csv: self.csv@,
            count: self.count,
            style: self.style,
            format: self.format,
            size: (self.size.x, self.size.y),
            projection: self.projection@,
            head_pos: self.head_pos@,
            head_dir: self.head_dir@,
            lefteye: self.lefteye@,
            righteye: self.righteye@,
            light_dir: self.light_dir@,
            light_color: self.light_color@,
            background: self.background@,
            ambient_color: self.ambient_color@,
            skin_color: self.skin_color@,
            sclera_color: self.sclera_color@,
            iris_color: self.iris_color@,
        }
    }
}

pub open spec fn constant(v: Seq<char>) -> DistributionView {
    DistributionView::Constant(v)
}

pub open spec fn constants(a: Seq<char>, b: Seq<char>, c: Seq<char>) -> Triple {
    (constant(a), constant(b), constant(c))
}

/// What a block of three distributions holds before any of its keys is read.
pub open spec fn zero_triple() -> Triple {
    constants("0.0"@, "0.0"@, "0.0"@)
}

/// A session with the given name and every setting at its default.
pub open spec fn default_session(name: Seq<char>) -> SessionView {
    SessionView {
        name,
        path: PathView::Replace("./"@),
        csv: "./files.cvs"@,
        count: 16384,
        style: SessionStyle::Still,
        format: SessionFormat::BMP,
        size: (256, 192),
        projection: ProjectionView {
            fovy: "30.0"@,
            aspect: AspectView::Ratio("4.0"@, "3.0"@),
            near: "0.1"@,
            far: "100.0"@,
        },
        head_pos: zero_triple(),
        head_dir: zero_triple(),
        lefteye: zero_triple(),
        righteye: zero_triple(),
        light_dir: zero_triple(),
        light_color: constants("1.0"@, "1.0"@, "1.0"@),
        background: BackgroundView::Color(zero_triple()),
        ambient_color: constants("0.2"@, "0.2"@, "0.2"@),
        skin_color: constants("0.8"@, "0.7"@, "0.6"@),
        sclera_color: constants("0.8"@, "0.8"@, "0.8"@),
        iris_color: constants("0.2"@, "0.3"@, "0.4"@),
    }
}

pub fn constant_of(v: &str) -> (r: SessionDistribution)
    ensures
        r@ == constant(v@),
{
    SessionDistribution::Constant(String::from_str(v))
}

fn rgb(r: &str, g: &str, b: &str) -> (c: SessionRGB)
    ensures
        c@ == constants(r@, g@, b@),
{
    SessionRGB { r: constant_of(r), g: constant_of(g), b: constant_of(b) }
}

fn ypb_zero() -> (d: SessionYPB)
    ensures
        d@ == zero_triple(),
{
    SessionYPB { y: constant_of("0.0"), p: constant_of("0.0"), b: constant_of("0.0") }
}

impl Session {
    /// A session named `name` with every setting at its default.
    pub fn with_defaults(name: String) -> (s: Session)
        ensures
            s@ == default_session(name@),
    {
        Session {
            name,
            path: SessionPath::Replace(String::from_str("./")),
            csv: String::from_str("./files.cvs"),
            count: 16384,
            style: SessionStyle::Still,
            format: SessionFormat::BMP,
            size: SessionSize { x: 256, y: 192 },
            projection: SessionProjection {
                fovy: String::from_str("30.0"),
                aspect: SessionAspect::Ratio(String::from_str("4.0"), String::from_str("3.0")),
                near: String::from_str("0.1"),
                far: String::from_str("100.0"),
            },
            head_pos: SessionXYZ {
                x: constant_of("0.0"),
                y: constant_of("0.0"),
                z: constant_of("0.0"),
            },
            head_dir: ypb_zero(),
            lefteye: ypb_zero(),
            righteye: ypb_zero(),
            light_dir: ypb_zero(),
            light_color: rgb("1.0", "1.0", "1.0"),
            background: SessionBackground::Color(rgb("0.0", "0.0", "0.0")),
            ambient_color: rgb("0.2", "0.2", "0.2"),
            skin_color: rgb("0.8", "0.7", "0.6"),
            sclera_color: rgb("0.8", "0.8", "0.8"),
            iris_color: rgb("0.2", "0.3", "0.4"),
        }
    }
}

} // verus!
