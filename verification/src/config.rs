//! Parser configuration, its defaults and the fluent builder.

use vstd::prelude::*;

verus! {

/// Output format.
#[derive(Clone, Copy, Debug, PartialEq, Eq, Structural)]
pub enum OutputFormat {
    /// Structured JSON with per-page text items, bounding boxes and metadata.
    Json,
    /// Plain text with spatial layout preserved.
    Text,
}

impl Default for OutputFormat {
    fn default() -> (r: Self)
        ensures
            r == OutputFormat::Json,
    {
        OutputFormat::Json
    }
}

/// Grid-projection debug switches.
#[derive(Clone, Debug)]
pub struct DebugConfig {
    pub enabled: bool,
    pub trace: Option<bool>,
    pub visualize: Option<bool>,
    pub visualize_path: Option<String>,
    pub output_path: Option<String>,
    pub text_filter: Option<Vec<String>>,
    pub page_filter: Option<u32>,
}

impl Default for DebugConfig {
    fn default() -> (r: Self)
        ensures
            !r.enabled,
            r.trace is None,
            r.visualize is None,
            r.visualize_path is None,
            r.output_path is None,
            r.text_filter is None,
            r.page_filter is None,
    {
        DebugConfig {
            enabled: false,
            trace: None,
            visualize: None,
            visualize_path: None,
            output_path: None,
            text_filter: None,
            page_filter: None,
        }
    }
}

/// One or more OCR language codes.
#[derive(Clone, Debug)]
pub enum Language {
    Single(String),
    Multiple(Vec<String>),
}

/// The codes a `Language` holds, in order.
pub open spec fn language_codes(l: Language) -> Seq<Seq<char>> {
    match l {
        Language::Single(s) => seq![s@],
        Language::Multiple(v) => v@.map_values(|s: String| s@),
    }
}

impl Default for Language {
    fn default() -> (r: Self)
        ensures
            r matches Language::Single(s) && s@ == "en"@,
    {
        Language::Single("en".to_owned())
    }
}

impl Language {
    /// The language codes as string slices, in order.
    pub fn as_strings(&self) -> (r: Vec<&str>)
        ensures
            r@.map_values(|s: &str| s@) == language_codes(*self),
    {
        match self {
            Language::Single(s) => {
                let v = vec![s.as_str()];
                assert(v@.map_values(|s: &str| s@) =~= seq![s@]);
                v
            },
            Language::Multiple(v) => {
                let mut out: Vec<&str> = Vec::new();
                let mut i: usize = 0;
                while i < v.len()
                    invariant
                        i <= v.len(),
                        out@.len() == i,
                        out@.map_values(|s: &str| s@) == v@.take(i as int).map_values(
                            |s: String| s@,
                        ),
                    decreases v.len() - i,
                {
                    let item = v[i].as_str();
                    let ghost before = out@;
                    assert(item@ == v@[i as int]@);
                    out.push(item);
                    proof {
                        assert forall|k: int| 0 <= k < i implies #[trigger] out@[k]@ == v@[k]@ by {
                            assert(out@[k] == before[k]);
                            assert(before.map_values(|s: &str| s@)[k] == v@.take(i as int).map_values(
                                |s: String| s@,
                            )[k]);
                        }
                    }
                    i += 1;
                    assert(out@.map_values(|s: &str| s@) =~= v@.take(i as int).map_values(
                        |s: String| s@,
                    ));
                }
                assert(v@.take(v.len() as int) =~= v@);
                out
            },
        }
    }

    /// The language codes as owned strings, in order.
    pub fn to_codes(&self) -> (r: Vec<String>)
        ensures
            r@.map_values(|s: String| s@) == language_codes(*self),
    {
        match self {
            Language::Single(s) => {
                let v = vec![s.as_str().to_owned()];
                assert(v@.map_values(|s: String| s@) =~= seq![s@]);
                v
            },
            Language::Multiple(v) => {
                let mut out: Vec<String> = Vec::new();
                let mut i: usize = 0;
                while i < v.len()
                    invariant
                        i <= v.len(),
                        out@.len() == i,
                        out@.map_values(|s: String| s@) == v@.take(i as int).map_values(
                            |s: String| s@,
                        ),
                    decreases v.len() - i,
                {
                    let item = v[i].as_str().to_owned();
                    let ghost before = out@;
                    assert(item@ == v@[i as int]@);
                    out.push(item);
                    proof {
                        assert forall|k: int| 0 <= k < i implies #[trigger] out@[k]@ == v@[k]@ by {
                            assert(out@[k] == before[k]);
                            assert(before.map_values(|s: String| s@)[k] == v@.take(i as int).map_values(
                                |s: String| s@,
                            )[k]);
                        }
                    }
                    i += 1;
                    assert(out@.map_values(|s: String| s@) =~= v@.take(i as int).map_values(
                        |s: String| s@,
                    ));
                }
                assert(v@.take(v.len() as int) =~= v@);
                out
            },
        }
    }
}

/// 256 MiB, the default cap of both stream pre-scans.
pub const DEFAULT_STREAM_CAP: u64 = 268435456;

/// Full parser configuration.
#[derive(Clone, Debug)]
pub struct ParseConfig {
    pub ocr_language: Language,
    pub ocr_enabled: bool,
    pub ocr_server_url: Option<String>,
    pub tessdata_path: Option<String>,
    pub num_workers: usize,
    pub max_pages: u32,
    pub target_pages: Option<String>,
    pub dpi: u32,
    pub output_format: OutputFormat,
    pub precise_bounding_box: bool,
    pub preserve_very_small_text: bool,
    pub preserve_layout_alignment_across_pages: bool,
    /// Detect tabular regions on each page.
    pub detect_tables: bool,
    pub password: Option<String>,
    /// Fail a parse once wall-clock work exceeds this many seconds.
    pub timeout_secs: Option<u64>,
    /// Largest in-memory input accepted, in bytes.
    pub max_input_bytes: Option<u64>,
    /// Largest directly declared stream `/Length` accepted.
    pub max_declared_stream_bytes: Option<u64>,
    /// Budget for the total inflated size of FlateDecode streams.
    pub max_expanded_stream_bytes: Option<u64>,
    pub debug: Option<DebugConfig>,
}

/// The default configuration.
pub open spec fn is_default_config(c: ParseConfig) -> bool {
    &&& c.ocr_language matches Language::Single(s) && s@ == "en"@
    &&& c.ocr_enabled
    &&& c.ocr_server_url is None
    &&& c.tessdata_path is None
    &&& c.num_workers == 4
    &&& c.max_pages == 1000
    &&& c.target_pages is None
    &&& c.dpi == 150
    &&& c.output_format == OutputFormat::Json
    &&& c.precise_bounding_box
    &&& !c.preserve_very_small_text
    &&& !c.preserve_layout_alignment_across_pages
    &&& !c.detect_tables
    &&& c.password is None
    &&& c.timeout_secs is None
    &&& c.max_input_bytes is None
    &&& c.max_declared_stream_bytes == Some(DEFAULT_STREAM_CAP)
    &&& c.max_expanded_stream_bytes == Some(DEFAULT_STREAM_CAP)
    &&& c.debug is None
}

impl Default for ParseConfig {
    fn default() -> (r: Self)
        ensures
            is_default_config(r),
    {
        ParseConfig {
            ocr_language: Language::default(),
            ocr_enabled: true,
            ocr_server_url: None,
            tessdata_path: None,
            num_workers: 4,
            max_pages: 1000,
            target_pages: None,
            dpi: 150,
            output_format: OutputFormat::Json,
            precise_bounding_box: true,
            preserve_very_small_text: false,
            preserve_layout_alignment_across_pages: false,
            detect_tables: false,
            password: None,
            timeout_secs: None,
            max_input_bytes: None,
            max_declared_stream_bytes: Some(DEFAULT_STREAM_CAP),
            max_expanded_stream_bytes: Some(DEFAULT_STREAM_CAP),
            debug: None,
        }
    }
}

/// Fluent builder over [`ParseConfig`], starting from the defaults.
#[derive(Clone, Debug)]
pub struct ParseConfigBuilder {
    pub config: ParseConfig,
}

impl Default for ParseConfigBuilder {
    fn default() -> (r: Self)
        ensures
            is_default_config(r.config),
    {
        ParseConfigBuilder { config: ParseConfig::default() }
    }
}

impl ParseConfigBuilder {
    pub fn ocr_enabled(self, on: bool) -> (r: Self)
        ensures
            r.config == (ParseConfig { ocr_enabled: on, ..self.config }),
    {
        let mut s = self;
        s.config.ocr_enabled = on;
        s
    }

    pub fn ocr_server_url(self, url: &str) -> (r: Self)
        ensures
            r.config.ocr_server_url matches Some(u) && u@ == url@,
            r.config == (ParseConfig { ocr_server_url: r.config.ocr_server_url, ..self.config }),
    {
        let mut s = self;
        s.config.ocr_server_url = Some(url.to_owned());
        s
    }

    pub fn dpi(self, dpi: u32) -> (r: Self)
        ensures
            r.config == (ParseConfig { dpi, ..self.config }),
    {
        let mut s = self;
        s.config.dpi = dpi;
        s
    }

    pub fn output_format(self, fmt: OutputFormat) -> (r: Self)
        ensures
            r.config == (ParseConfig { output_format: fmt, ..self.config }),
    {
        let mut s = self;
        s.config.output_format = fmt;
        s
    }

    pub fn max_pages(self, max: u32) -> (r: Self)
        ensures
            r.config == (ParseConfig { max_pages: max, ..self.config }),
    {
        let mut s = self;
        s.config.max_pages = max;
        s
    }

    pub fn target_pages(self, spec: &str) -> (r: Self)
        ensures
            r.config.target_pages matches Some(t) && t@ == spec@,
            r.config == (ParseConfig { target_pages: r.config.target_pages, ..self.config }),
    {
        let mut s = self;
        s.config.target_pages = Some(spec.to_owned());
        s
    }

    pub fn num_workers(self, n: usize) -> (r: Self)
        ensures
            r.config == (ParseConfig { num_workers: n, ..self.config }),
    {
        let mut s = self;
        s.config.num_workers = n;
        s
    }

    pub fn password(self, pw: &str) -> (r: Self)
        ensures
            r.config.password matches Some(p) && p@ == pw@,
            r.config == (ParseConfig { password: r.config.password, ..self.config }),
    {
        let mut s = self;
        s.config.password = Some(pw.to_owned());
        s
    }

    pub fn precise_bounding_box(self, on: bool) -> (r: Self)
        ensures
            r.config == (ParseConfig { precise_bounding_box: on, ..self.config }),
    {
        let mut s = self;
        s.config.precise_bounding_box = on;
        s
    }

    /// Fail a parse if wall-clock work exceeds this many seconds.
    pub fn timeout_secs(self, secs: u64) -> (r: Self)
        ensures
            r.config == (ParseConfig { timeout_secs: Some(secs), ..self.config }),
    {
        let mut s = self;
        s.config.timeout_secs = Some(secs);
        s
    }

    /// Reject in-memory inputs larger than this many bytes.
    pub fn max_input_bytes(self, bytes: u64) -> (r: Self)
        ensures
            r.config == (ParseConfig { max_input_bytes: Some(bytes), ..self.config }),
    {
        let mut s = self;
        s.config.max_input_bytes = Some(bytes);
        s
    }

    /// Reject PDFs declaring any single stream larger than this; `None`
    /// disables the check.
    pub fn max_declared_stream_bytes(self, bytes: Option<u64>) -> (r: Self)
        ensures
            r.config == (ParseConfig { max_declared_stream_bytes: bytes, ..self.config }),
    {
        let mut s = self;
        s.config.max_declared_stream_bytes = bytes;
        s
    }

    /// Reject PDFs whose FlateDecode streams together inflate past this;
    /// `None` disables the pre-scan.
    pub fn max_expanded_stream_bytes(self, bytes: Option<u64>) -> (r: Self)
        ensures
            r.config == (ParseConfig { max_expanded_stream_bytes: bytes, ..self.config }),
    {
        let mut s = self;
        s.config.max_expanded_stream_bytes = bytes;
        s
    }

    /// The configuration built so far.
    pub fn config(self) -> (r: ParseConfig)
        ensures
            r == self.config,
    {
        self.config
    }
}

} // verus!
