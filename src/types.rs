//! The configuration and class-definition types that the classifier reads.

use vstd::prelude::*;
use crate::validators::Validator;

verus! {

/// A group name with the class definitions that belong to it: an entry of a
/// class-group table, of a theme table, or of a nested class object.
#[derive(Debug)]
pub struct NamedGroup {
    pub id: String,
    pub definitions: Vec<ClassDefinition>,
}

/// One way a class-name suffix can belong to a group.
#[derive(Debug)]
pub enum ClassDefinition {
    /// The suffix equals this literal.
    String(String),
    /// The suffix is non-empty and passes this validator.
    ClassValidator(Validator),
    /// The suffix matches the theme scale that this getter names.
    ThemeGetter(ThemeGetter),
    /// The suffix is a key of this object, or a key, `-`, and a tail that
    /// matches the key's definitions.
    ClassObject(Vec<NamedGroup>),
}

/// A late-bound reference to a theme scale, resolved against the theme table
/// at classification time.
#[derive(Clone, Debug)]
pub struct ThemeGetter {
    pub key: String,
}

/// A group id with the group ids it invalidates when it appears later in a merge.
#[derive(Clone, Debug)]
pub struct ConflictEntry {
    pub id: String,
    pub conflicts: Vec<String>,
}

/// The static part of a configuration.
#[derive(Clone, Debug)]
pub struct ConfigStaticPart {
    /// Capacity of the classification cache; zero disables it.
    pub cache_size: usize,
    /// A prefix that every recognized class must carry, followed by the separator.
    pub prefix: Option<String>,
    /// The separator between modifiers and the base class.
    pub separator: String,
}

/// What a custom class-name parser receives.
#[derive(Clone, Debug)]
pub struct ExperimentalParseClassName {
    pub class_name: String,
}

/// A class name split into modifiers, important flag and base class.
#[derive(Clone, Debug)]
pub struct ExperimentalParsedClassName {
    pub modifiers: Vec<String>,
    pub has_important_modifier: bool,
    pub base_class_name: String,
    pub maybe_postfix_modifier_position: Option<usize>,
}

/// The groups part of a configuration. Tables keep their order: the first
/// class group that matches wins, and the first theme entry with a key is used.
#[derive(Debug)]
pub struct ConfigGroupsPart {
    pub theme: Vec<NamedGroup>,
    pub class_groups: Vec<NamedGroup>,
    pub conflicting_class_groups: Vec<ConflictEntry>,
    pub conflicting_class_group_modifiers: Vec<ConflictEntry>,
}

/// A whole configuration.
#[derive(Debug)]
pub struct Config {
    pub static_part: ConfigStaticPart,
    pub groups_part: ConfigGroupsPart,
}

/// Groups that replace, or are added to, a configuration's groups part.
#[derive(Debug)]
pub struct ConfigExtension {
    pub override_part: Option<ConfigGroupsPart>,
    pub extend_part: Option<ConfigGroupsPart>,
}

/// A value wrapped so that it takes no part in type inference.
pub struct NoInfer<T>(pub T);

/// The theme scales of the default configuration.
#[derive(Clone, Copy, Debug, PartialEq, Eq, Hash, Structural)]
pub enum DefaultThemeGroupIds {
    Blur,
    BorderColor,
    BorderRadius,
    BorderSpacing,
    BorderWidth,
    Brightness,
    Colors,
    Contrast,
    Gap,
    GradientColorStopPositions,
    GradientColorStops,
    Grayscale,
    HueRotate,
    Inset,
    Invert,
    Margin,
    Opacity,
    Padding,
    Saturate,
    Scale,
    Sepia,
    Skew,
    Space,
    Spacing,
    Translate,
}

/// The class groups of the default configuration.
#[derive(Clone, Copy, Debug, PartialEq, Eq, Hash, Structural)]
pub enum DefaultClassGroupIds {
    Accent,
    AlignContent,
    AlignItems,
    AlignSelf,
    Animate,
    Appearance,
    Aspect,
    AutoCols,
    AutoRows,
    BackdropBlur,
    BackdropBrightness,
    BackdropContrast,
    BackdropFilter,
    BackdropGrayScale,
    BackdropHueRotate,
    BackdropInvert,
    BackdropOpacity,
    BackdropSaturate,
    BackdropSepia,
    Basis,
    BgAttachment,
    BgBlend,
    BgClip,
    BgColor,
    BgImage,
    BgOpacity,
    BgOrigin,
    BgPosition,
    BgRepeat,
    BgSize,
    Blur,
    BorderCollapse,
    BorderColorB,
    BorderColorE,
    BorderColorL,
    BorderColorR,
    BorderColorS,
    BorderColorT,
    BorderColorX,
    BorderColorY,
    BorderColor,
    BorderOpacity,
    BorderSpacingX,
    BorderSpacingY,
    BorderSpacing,
    BorderStyle,
    BorderWB,
    BorderWE,
    BorderWL,
    BorderWR,
    BorderWS,
    BorderWT,
    BorderWX,
    BorderWY,
    BordeRW,
    Bottom,
    BoxDecoration,
    Box,
    BreakAfter,
    BreakBefore,
    BreakInside,
    Break,
    Brightness,
    Caption,
    CaretColor,
    Clear,
    ColEnd,
    ColStartEnd,
    ColStart,
    Columns,
    Container,
    Content,
    Contrast,
    Cursor,
    Delay,
    Display,
    DivideColor,
    DivideOpacity,
    DivideStyle,
    DivideXReverse,
    DivideX,
    DivideYReverse,
    DivideY,
    DropShadow,
    Duration,
    Ease,
    End,
    Fill,
    Filter,
    FlexDirection,
    FlexWrap,
    Flex,
    Float,
    FontFamily,
    FontSize,
    FontSmoothing,
    FontStyle,
    FontWeight,
    ForcedColorAdjust,
    FvnFigure,
    FvnFraction,
    FvnNormal,
    FvnOrdinal,
    FvnSlashedZero,
    FvnSpacing,
    GapX,
    GapY,
    Gap,
    GradientFromPos,
    GradientFrom,
    GradientToPos,
    GradientTo,
    GradientViaPos,
    GradientVia,
    Grayscale,
    GridCols,
    GridFlow,
    GridRows,
    Grow,
    H,
    HueRotate,
    Hyphens,
    Indent,
    InsetX,
    InsetY,
    Inset,
    Invert,
    Isolation,
    JustifyContent,
    JustifyItems,
    JustifySelf,
    Leading,
    Left,
    LineClamp,
    ListImage,
    ListStylePosition,
    ListStyleType,
    MH,
    Max,
    MaxW,
    MB,
    ME,
    MinH,
    MinW,
    MixBlend,
    ML,
    MR,
    MS,
    MT,
    MX,
    MY,
    ObjectFit,
    ObjectPosition,
    Opacity,
    Order,
    OutlineColor,
    OutlineOffset,
    OutlineStyle,
    OutlineW,
    OverflowX,
    OverflowY,
    Overflow,
    OverscrollX,
    OverscrollY,
    Overscroll,
    P,
    Pb,
    Pe,
    Pl,
    PlaceContent,
    PlaceItems,
    PlaceSelf,
    PlaceholderColor,
    PlaceholderOpacity,
    PointerEvents,
    Position,
    Pr,
    Ps,
    Pt,
    Px,
    Py,
    Resize,
    Right,
    RingColor,
    RingOffsetColor,
    RingOffsetW,
    RingOpacity,
    RingWInset,
    RingW,
    Rotate,
    RoundedB,
    RoundedBl,
    RoundedBr,
    RoundedE,
    RoundedEe,
    RoundedEs,
    RoundedL,
    RoundedR,
    RoundedS,
    RoundedSe,
    RoundedSs,
    RoundedT,
    RoundedTl,
    RoundedTr,
    Rounded,
    RowEnd,
    RowStartEnd,
    RowStart,
    Saturate,
    ScaleX,
    ScaleY,
    Scale,
    ScrollBehavior,
    ScrolM,
    ScrollMb,
    ScrollMe,
    ScrollMl,
    ScrollMr,
    ScrollMs,
    ScrollMt,
    ScrollMx,
    ScrollMy,
    ScrollP,
    ScrollPb,
    ScrollPe,
    ScrollPl,
    ScrollPr,
    ScrollPs,
    ScrollPt,
    ScrollPx,
    ScrollPy,
    Select,
    Sepia,
    ShadowColor,
    Shadow,
    Shrink,
    Size,
    SkewX,
    SkewY,
    SnapAlign,
    SnapStop,
    SnapStrictness,
    SnapType,
    SpaceXReverse,
    SpaceX,
    SpaceYReverse,
    SpaceY,
    Sr,
    Start,
    StrokeW,
    Stroke,
    TableLayout,
    TextAlignment,
    TextColor,
    TextDecorationColor,
    TextDecorationStyle,
    TextDecorationThickness,
    TextDecoration,
    TextOpacity,
    TextOverflow,
    TextTransform,
    TextWrap,
    Top,
    TouchPz,
    TouchX,
    TouchY,
    Touch,
    Tracking,
    TransformOrigin,
    Transform,
    Transition,
    TranslateX,
    TranslateY,
    UnderlineOffset,
    VerticalAlign,
    Visibility,
    W,
    Whitespace,
    WillChange,
    Z,
}

} // verus!
