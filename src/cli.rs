//! Arguments of the command-line tools, as plain values. Paths are held as
//! strings.
use vstd::prelude::*;

verus! {

/// Arguments of `drop`: drop duplicate lines of an ndjson file.
#[derive(Debug, Clone)]
pub struct DropCmdArgs {
    /// Input ndjson; "-" for stdin.
    pub input: String,
    /// Key for duplicate checking.
    pub key: String,
}

/// Arguments of `filter`: keep ndjson lines by validation result.
#[derive(Debug, Clone)]
pub struct FilterCmdArgs {
    /// Input ndjson; "-" for stdin.
    pub input: String,
    /// Text files holding rules.
    pub rules: Vec<String>,
    /// Output the invalid lines instead.
    pub invert: bool,
}

/// Arguments of `remove`: remove labels from ndjson.
#[derive(Debug, Clone)]
pub struct RemoveCmdArgs {
    /// Input ndjson; "-" for stdin.
    pub input: String,
    /// Labels to remove.
    pub label: Vec<String>,
    /// Invert the removal condition.
    pub invert: bool,
}

/// Which point of a shape becomes the point.
#[derive(Debug, Clone, Copy)]
pub struct Reshape2Point {
    /// Index of the point to keep (0 or 1 for a circle).
    pub index: usize,
}

/// Kinds of shape conversion.
#[derive(Debug, Clone, Copy)]
pub enum ReshapeType {
    /// Circle to point.
    CirclePoint(Reshape2Point),
    /// Polygon to point.
    PolyPoint(Reshape2Point),
}

/// Arguments of `shapeshift`: change shape types.
#[derive(Debug, Clone)]
pub struct ShapeshiftCmdArgs {
    /// Input ndjson; "-" for stdin.
    pub input: String,
    /// The conversion to apply.
    pub reshape: ReshapeType,
}

/// Arguments of `validate`: check annotation files against rules.
#[derive(Debug, Clone)]
pub struct ValidateCmdArgs {
    /// Rule file.
    pub rules: String,
    /// Input directory.
    pub input: String,
    /// Check only files that set one of these flags.
    pub flag: Vec<String>,
    /// Skip files that set one of these flags.
    pub ignore: Vec<String>,
    /// More rule files, read after `rules`.
    pub additional: Vec<String>,
    /// Print the counts at the end.
    pub stats: bool,
    /// Verbosity.
    pub verbose: u8,
    /// Number of worker threads; 0 for one per physical core.
    pub threads: usize,
}

/// Arguments of `catalog`: an HTML catalog of a labelme directory.
#[derive(Debug, Clone)]
pub struct HtmlCmdArgs {
    /// Input directory or ndjson; "-" for stdin.
    pub input: String,
    /// Output HTML file.
    pub output: String,
    /// Flags file, used to order the flags.
    pub flags: Option<String>,
    /// SVG settings.
    pub svg: SvgConfig,
    /// HTML title.
    pub title: String,
    /// CSS file.
    pub css: Option<String>,
    /// Directory that overrides the one of `imagePath`.
    pub image_dir: Option<String>,
    /// Number of jobs.
    pub jobs: Option<usize>,
}

/// SVG settings shared by the commands that draw.
#[derive(Debug, Clone)]
pub struct SvgConfig {
    /// Labelme config file; only `label_colors` is read.
    pub config: Option<String>,
    /// Circle radius.
    pub radius: usize,
    /// Line width.
    pub line_width: usize,
    /// Resize parameter, as for imagemagick's `-resize`.
    pub resize: Option<String>,
}

impl Default for SvgConfig {
    fn default() -> (r: Self)
        ensures
            r.config is None,
            r.radius == 2,
            r.line_width == 2,
            r.resize is None,
    {
        SvgConfig { config: None, radius: 2, line_width: 2, resize: None }
    }
}

/// Arguments of `svg`: draw one annotation file.
#[derive(Debug, Clone)]
pub struct SvgCmdArgs {
    /// Input json file.
    pub input: String,
    /// Output svg file.
    pub output: String,
    /// SVG settings.
    pub svg: SvgConfig,
}

/// Arguments of `swap`: swap the prefix (or suffix) of `imagePath`.
#[derive(Debug, Clone)]
pub struct SwapCmdArgs {
    /// Input json, ndjson or directory; "-" for stdin.
    pub input: String,
    /// New prefix (or suffix).
    pub prefix: String,
    /// Output file or directory.
    pub output: Option<String>,
    /// Swap the suffix instead of the prefix.
    pub suffix: bool,
}

/// Arguments of `resize`: scale point coordinates.
#[derive(Debug, Clone)]
pub struct ResizeCmdArgs {
    /// Input ndjson; "-" for stdin.
    pub input: String,
    /// Resize parameter, as for imagemagick's `-resize`.
    pub param: String,
    /// Output directory for resized images.
    pub image: Option<String>,
}

/// What becomes of the parent directory in a `filename` field.
#[derive(Debug, Clone, Copy)]
pub enum ParentHandling {
    /// Keep it.
    Keep,
    /// Make the path absolute.
    Absolute,
    /// Remove it.
    Remove,
}

/// Arguments of `jsonl`: an ndjson file from json files.
#[derive(Debug, Clone)]
pub struct JsonlCmdArgs {
    /// Directories, json files or ndjson files.
    pub input: Vec<String>,
    /// Key for the file name.
    pub filename: String,
}

/// Arguments of `ndjson`: an ndjson file from json files.
#[derive(Debug, Clone)]
pub struct NdjsonCmdArgs {
    /// Directories, json files or ndjson files.
    pub input: Vec<String>,
    /// Key for the file name.
    pub filename: String,
    /// What becomes of the parent directory.
    pub parent: ParentHandling,
    /// Glob pattern.
    pub glob: String,
    /// Do not skip entries that start with `.`.
    pub all: bool,
}

/// Arguments of `init`: an empty annotation for an image.
#[derive(Debug, Clone)]
pub struct InitCmdArgs {
    /// Image or image directory.
    pub input: String,
    /// Image extension.
    pub extension: String,
    /// Key for the file name.
    pub filename: String,
}

/// Arguments of `archive`: a tarball of annotations and images.
#[derive(Debug, Clone)]
pub struct ArchiveCmdArgs {
    /// Input directory.
    pub input: String,
    /// Output archive; "-" for stdout.
    pub output: String,
}

/// What becomes of the parent directory when an ndjson file is split.
#[derive(Debug, Clone, Copy)]
pub enum SplitParentHandling {
    /// Keep it.
    Keep,
    /// Ignore it.
    Ignore,
}

/// Arguments of `split`: json files from an ndjson file.
#[derive(Debug, Clone)]
pub struct SplitCmdArgs {
    /// Input ndjson; stdin when absent.
    pub input: Option<String>,
    /// Output directory.
    pub output: Option<String>,
    /// Key for the file name.
    pub filename: String,
    /// Key for the content.
    pub content: String,
    /// Overwrite existing files.
    pub overwrite: bool,
    /// What becomes of the parent directory.
    pub parent: SplitParentHandling,
    /// Pretty-print the json.
    pub pretty: bool,
}

/// Ways of joining ndjson files.
#[derive(Debug, Clone, Copy)]
pub enum JoinMode {
    Inner,
    Left,
    Outer,
}

/// What to do when a key is missing.
#[derive(Debug, Clone, Copy, PartialEq, Eq)]
pub enum MissingHandling {
    /// Stop.
    Exit,
    /// Go on.
    Continue,
}

/// Arguments of `join`: join ndjson files on a key.
#[derive(Debug, Clone)]
pub struct JoinCmdArgs {
    /// Input ndjson files; "-" for stdin.
    pub input: Vec<String>,
    /// Key to join on.
    pub key: String,
    /// Join mode.
    pub mode: JoinMode,
    /// Missing key handling.
    pub missing: MissingHandling,
}

/// Arguments of `merge`: merge annotations.
#[derive(Debug, Clone)]
pub struct MergeCmdArgs {
    /// Input ndjson files; "-" for stdin.
    pub input: Vec<String>,
    /// Missing key handling.
    pub missing: MissingHandling,
}

/// Arguments of `exist`: check that `imagePath` exists.
#[derive(Debug, Clone)]
pub struct ExistCmdArgs {
    /// Input ndjson; "-" for stdin.
    pub input: String,
    /// Output the files that do not exist instead.
    pub invert: bool,
}

/// Arguments of `count`: count flags.
#[derive(Debug, Clone)]
pub struct CountCmdArgs {
    /// Input json, ndjson or directory; "-" for stdin.
    pub input: String,
}

/// Arguments of `sort`: sort shapes by coordinates.
#[derive(Debug, Clone)]
pub struct SortCmdArgs {
    /// Input json or ndjson.
    pub input: String,
    /// Sort by x instead of y.
    pub by_x: bool,
    /// Sort in descending order.
    pub descending: bool,
    /// Sort only these shape types.
    pub shapes: Option<Vec<String>>,
    /// Sort the shape types not listed instead.
    pub invert_shape_matching: bool,
    /// Sort only these labels.
    pub labels: Option<Vec<String>>,
    /// Sort the labels not listed instead.
    pub invert_label_matching: bool,
}

/// Address of the browse server.
#[derive(Debug, Clone)]
pub struct BrowseServerConfig {
    /// Server address.
    pub address: String,
    /// Server port.
    pub port: u16,
}

impl Default for BrowseServerConfig {
    fn default() -> (r: Self)
        ensures
            r.address@ == "127.0.0.1"@,
            r.port == 8080,
    {
        BrowseServerConfig { address: "127.0.0.1".to_owned(), port: 8080 }
    }
}

/// Arguments of `browse`: serve annotations over HTTP.
#[derive(Debug, Clone)]
pub struct BrowseCmdArgs {
    /// Input file or directory.
    pub input: String,
    /// Config file.
    pub base_config: Option<String>,
    /// Open the default page.
    pub open: bool,
    /// Print the default config.
    pub default: bool,
    /// Server settings.
    pub server: BrowseServerConfig,
    /// SVG settings.
    pub svg: SvgConfig,
}

/// Settings of the browse server.
#[derive(Debug, Clone)]
pub struct Config {
    /// Server address.
    pub server: BrowseServerConfig,
    /// SVG settings.
    pub svg: SvgConfig,
}

impl Default for Config {
    /// The default SVG settings with images resized to fit 512x512.
    fn default() -> (r: Self)
        ensures
            r.server.address@ == "127.0.0.1"@,
            r.server.port == 8080,
            r.svg.config is None,
            r.svg.radius == 2,
            r.svg.line_width == 2,
            r.svg.resize is Some,
            r.svg.resize->0@ == "512x512"@,
    {
        let base = SvgConfig::default();
        let svg = SvgConfig {
            config: base.config,
            radius: base.radius,
            line_width: base.line_width,
            resize: Some("512x512".to_owned()),
        };
        Config { server: BrowseServerConfig::default(), svg }
    }
}

/// Arguments of `stats`: count shapes.
#[derive(Debug, Clone)]
pub struct StatsCmdArgs {
    /// Input json or ndjson; "-" for stdin.
    pub input: String,
}

} // verus!
