use vstd::prelude::*;

use crate::options::{
    find_key, lookup, merge_entries, put_entry, keys_unique, lemma_find_key_range,
    lemma_put_entry_lookup, Entry, Number, OptionValue, RequestOptions, Scalar,
};

verus! {

/// Sets `k` where a value is given; leaves the entries as they are otherwise.
pub open spec fn put_opt(es: Seq<Entry>, k: Seq<char>, v: Option<Scalar>) -> Seq<Entry> {
    match v {
        Some(x) => put_entry(es, k, x),
        None => es,
    }
}

/// An optional integer field as an optional value.
pub open spec fn int_opt(v: Option<u32>) -> Option<Scalar> {
    match v {
        Some(n) => Some(Scalar::Int(n as int)),
        None => None,
    }
}

/// An optional number field as an optional value.
pub open spec fn num_opt(v: Option<Number>) -> Option<Scalar> {
    match v {
        Some(n) => Some(n@),
        None => None,
    }
}

/// An optional flag field as an optional value.
pub open spec fn flag_opt(v: Option<bool>) -> Option<Scalar> {
    match v {
        Some(b) => Some(Scalar::Flag(b)),
        None => None,
    }
}

/// An optional text field as an optional value.
pub open spec fn text_opt(v: Option<String>) -> Option<Scalar> {
    match v {
        Some(s) => Some(Scalar::Text(s@)),
        None => None,
    }
}

/// The entries of an optional mapping; none where it is absent.
pub open spec fn additional_view(a: Option<RequestOptions>) -> Seq<Entry> {
    match a {
        Some(r) => r@,
        None => seq![],
    }
}

/// An optional mapping holds each name once.
pub open spec fn additional_wf(a: Option<RequestOptions>) -> bool {
    match a {
        Some(r) => r.wf(),
        None => true,
    }
}

/// Sets `key` to the integer, where one is given.
fn put_u32(options: &mut RequestOptions, key: &str, v: Option<u32>)
    ensures
        final(options).wf(),
        final(options)@ == put_opt(old(options)@, key@, int_opt(v)),
{
    options.names_unique();
    if let Some(n) = v {
        options.insert(key.to_string(), OptionValue::Number(Number::PosInt(n as u64)));
    }
}

/// Sets `key` to the number, where one is given.
fn put_number(options: &mut RequestOptions, key: &str, v: &Option<Number>)
    ensures
        final(options).wf(),
        final(options)@ == put_opt(old(options)@, key@, num_opt(*v)),
{
    options.names_unique();
    if let Some(n) = v {
        options.insert(key.to_string(), OptionValue::Number(n.duplicate()));
    }
}

/// Sets `key` to the flag, where one is given.
fn put_flag(options: &mut RequestOptions, key: &str, v: Option<bool>)
    ensures
        final(options).wf(),
        final(options)@ == put_opt(old(options)@, key@, flag_opt(v)),
{
    options.names_unique();
    if let Some(b) = v {
        options.insert(key.to_string(), OptionValue::Bool(b));
    }
}

/// Sets `key` to the text, where one is given.
fn put_text(options: &mut RequestOptions, key: &str, v: &Option<String>)
    ensures
        final(options).wf(),
        final(options)@ == put_opt(old(options)@, key@, text_opt(*v)),
{
    options.names_unique();
    if let Some(s) = v {
        options.insert(key.to_string(), OptionValue::Str(s.clone()));
    }
}

/// Sets every entry of `add`, in order, over the entries already there.
fn merge_additional(options: &mut RequestOptions, add: &Option<RequestOptions>)
    ensures
        final(options).wf(),
        final(options)@ == merge_entries(old(options)@, additional_view(*add)),
{
    options.names_unique();
    if let Some(a) = add {
        let ghost base = options@;
        let mut i: usize = 0;
        while i < a.len()
            invariant
                i <= a@.len(),
                options.wf(),
                options@ == merge_entries(base, a@.take(i as int)),
            decreases a@.len() - i,
        {
            let (k, v) = a.entry(i);
            proof {
                assert(a@.take(i + 1).drop_last() =~= a@.take(i as int));
                assert(a@.take(i + 1).last() == a@[i as int]);
            }
            options.insert(k.clone(), v.duplicate());
            i = i + 1;
        }
        proof {
            assert(a@.take(a@.len() as int) =~= a@);
        }
    }
}

/// A copy of an optional text.
fn copy_text(o: &Option<String>) -> (r: Option<String>)
    ensures
        r == *o,
{
    match o {
        Some(s) => Some(s.clone()),
        None => None,
    }
}

/// A copy of an optional number.
fn copy_number(o: &Option<Number>) -> (r: Option<Number>)
    ensures
        num_opt(r) == num_opt(*o),
{
    match o {
        Some(n) => Some(n.duplicate()),
        None => None,
    }
}

/// A copy of optional additional options.
fn copy_additional(o: &Option<RequestOptions>) -> (r: Option<RequestOptions>)
    ensures
        additional_view(r) == additional_view(*o),
        additional_wf(r),
{
    match o {
        Some(a) => {
            let c = a.duplicate();
            c.names_unique();
            Some(c)
        },
        None => None,
    }
}

/// Where every entry of `add` is already set to its value, merging `add` changes nothing.
pub proof fn lemma_merge_unchanged(es: Seq<Entry>, add: Seq<Entry>)
    requires
        forall|j: int| 0 <= j < add.len() ==> lookup(es, #[trigger] add[j].0) == Some(add[j].1),
    ensures
        merge_entries(es, add) == es,
    decreases add.len(),
{
    if add.len() > 0 {
        let a = add.drop_last();
        assert forall|j: int| 0 <= j < a.len() implies lookup(es, #[trigger] a[j].0) == Some(a[j].1) by {
            assert(a[j] == add[j]);
        }
        lemma_merge_unchanged(es, a);
        let (k, v) = add.last();
        assert(lookup(es, add[add.len() - 1].0) == Some(add[add.len() - 1].1));
        lemma_find_key_range(es, k);
        assert(es.update(find_key(es, k), (k, v)) =~= es);
    }
}

/// After merging `add`, each name of `add` holds the value that `add` gives it.
pub proof fn lemma_merge_sets_all(es: Seq<Entry>, add: Seq<Entry>)
    requires
        keys_unique(add),
    ensures
        forall|j: int|
            0 <= j < add.len() ==> lookup(merge_entries(es, add), #[trigger] add[j].0) == Some(
                add[j].1,
            ),
    decreases add.len(),
{
    if add.len() > 0 {
        let a = add.drop_last();
        assert(keys_unique(a));
        lemma_merge_sets_all(es, a);
        let m = merge_entries(es, a);
        let (k, v) = add.last();
        lemma_put_entry_lookup(m, k, v);
        assert forall|j: int|
            0 <= j < add.len() implies lookup(merge_entries(es, add), #[trigger] add[j].0) == Some(
            add[j].1,
        ) by {
            if j < add.len() - 1 {
                assert(a[j] == add[j]);
                assert(add[j].0 != k);
            }
        }
    }
}

/// `k` is the name of some entry of `add`.
pub open spec fn names_entry(add: Seq<Entry>, k: Seq<char>) -> bool {
    exists|j: int| 0 <= j < add.len() && #[trigger] add[j].0 == k
}

/// After a merge, the names that hold a value are those that held one before
/// and those of the merged entries.
pub proof fn lemma_merge_names(es: Seq<Entry>, add: Seq<Entry>, k: Seq<char>)
    ensures
        lookup(merge_entries(es, add), k) is Some <==> (lookup(es, k) is Some || names_entry(
            add,
            k,
        )),
    decreases add.len(),
{
    if add.len() > 0 {
        let a = add.drop_last();
        lemma_merge_names(es, a, k);
        let (kl, v) = add.last();
        lemma_put_entry_lookup(merge_entries(es, a), kl, v);
        if names_entry(a, k) {
            let j = choose|j: int| 0 <= j < a.len() && #[trigger] a[j].0 == k;
            assert(add[j].0 == k);
        }
        if names_entry(add, k) && k != kl {
            let j = choose|j: int| 0 <= j < add.len() && #[trigger] add[j].0 == k;
            assert(a[j].0 == k);
        }
        if k == kl {
            assert(add[add.len() - 1].0 == k);
        }
    }
}

/// The additional entries win: merged over any entries, each of them holds its
/// own value in the result, and merging them once more changes nothing.
pub proof fn lemma_additional_entries_win(es: Seq<Entry>, add: Seq<Entry>)
    requires
        keys_unique(add),
    ensures
        forall|j: int|
            0 <= j < add.len() ==> lookup(merge_entries(es, add), #[trigger] add[j].0) == Some(
                add[j].1,
            ),
        merge_entries(merge_entries(es, add), add) == merge_entries(es, add),
{
    lemma_merge_sets_all(es, add);
    lemma_merge_unchanged(merge_entries(es, add), add);
}

/// Options of a screenshot capture; each field that is set becomes one query parameter.
#[derive(Debug, Default)]
pub struct ScreenshotOptions {
    /// Viewport width in pixels.
    pub vw: Option<u32>,
    /// Viewport height in pixels.
    pub vh: Option<u32>,
    /// Device scale factor.
    pub scale_factor: Option<Number>,
    /// Capture the full page.
    pub full: Option<bool>,
    /// Seconds to wait before the capture.
    pub delay: Option<u32>,
    /// Selector to wait for.
    pub wait_for: Option<String>,
    /// Element id to wait for.
    pub wait_for_id: Option<String>,
    /// Render in dark mode.
    pub dark_mode: Option<bool>,
    /// Transparent background.
    pub transparent: Option<bool>,
    /// Selector of the element to capture.
    pub selector: Option<String>,
    /// Id of the element to capture.
    pub selector_id: Option<String>,
    /// Hide cookie banners.
    pub block_cookie_banners: Option<bool>,
    /// Block ads.
    pub block_ads: Option<bool>,
    /// Try to get past bot detection.
    pub bypass_bot_detection: Option<bool>,
    /// Image format.
    pub image_type: Option<String>,
    /// Let the service pick the format.
    pub best_format: Option<bool>,
    /// Width to resize the image to.
    pub resize_width: Option<u32>,
    /// Height to resize the image to.
    pub resize_height: Option<u32>,
    /// HTTP basic authentication for the target page.
    pub http_auth: Option<String>,
    /// User agent to load the page with.
    pub user_agent: Option<String>,
    /// Skip the service's cache.
    pub fresh: Option<bool>,
    /// Further options, set last, so that they win over the fields above.
    pub additional_options: Option<RequestOptions>,
}

/// The entries that the fields of a screenshot set give: each field that is set,
/// under its wire name, in field order.
pub open spec fn screenshot_fields(o: ScreenshotOptions) -> Seq<Entry> {
    let e = Seq::<Entry>::empty();
    let e = put_opt(e, "vw"@, int_opt(o.vw));
    let e = put_opt(e, "vh"@, int_opt(o.vh));
    let e = put_opt(e, "scaleFactor"@, num_opt(o.scale_factor));
    let e = put_opt(e, "full"@, flag_opt(o.full));
    let e = put_opt(e, "delay"@, int_opt(o.delay));
    let e = put_opt(e, "waitFor"@, text_opt(o.wait_for));
    let e = put_opt(e, "waitForId"@, text_opt(o.wait_for_id));
    let e = put_opt(e, "darkMode"@, flag_opt(o.dark_mode));
    let e = put_opt(e, "transparent"@, flag_opt(o.transparent));
    let e = put_opt(e, "selector"@, text_opt(o.selector));
    let e = put_opt(e, "selectorId"@, text_opt(o.selector_id));
    let e = put_opt(e, "blockCookieBanners"@, flag_opt(o.block_cookie_banners));
    let e = put_opt(e, "blockAds"@, flag_opt(o.block_ads));
    let e = put_opt(e, "bypassBotDetection"@, flag_opt(o.bypass_bot_detection));
    let e = put_opt(e, "type"@, text_opt(o.image_type));
    let e = put_opt(e, "bestFormat"@, flag_opt(o.best_format));
    let e = put_opt(e, "resizeWidth"@, int_opt(o.resize_width));
    let e = put_opt(e, "resizeHeight"@, int_opt(o.resize_height));
    let e = put_opt(e, "httpAuth"@, text_opt(o.http_auth));
    let e = put_opt(e, "userAgent"@, text_opt(o.user_agent));
    let e = put_opt(e, "fresh"@, flag_opt(o.fresh));
    e
}

/// The option entries of a screenshot set: those of its fields, then the additional
/// options over them.
pub open spec fn screenshot_request(o: ScreenshotOptions) -> Seq<Entry> {
    merge_entries(screenshot_fields(o), additional_view(o.additional_options))
}

impl Clone for ScreenshotOptions {
    /// A copy that converts to the same option entries.
    fn clone(&self) -> (r: ScreenshotOptions)
        ensures
            screenshot_request(r) == screenshot_request(*self),
            r.wf(),
    {
        ScreenshotOptions {
            vw: self.vw,
            vh: self.vh,
            scale_factor: copy_number(&self.scale_factor),
            full: self.full,
            delay: self.delay,
            wait_for: copy_text(&self.wait_for),
            wait_for_id: copy_text(&self.wait_for_id),
            dark_mode: self.dark_mode,
            transparent: self.transparent,
            selector: copy_text(&self.selector),
            selector_id: copy_text(&self.selector_id),
            block_cookie_banners: self.block_cookie_banners,
            block_ads: self.block_ads,
            bypass_bot_detection: self.bypass_bot_detection,
            image_type: copy_text(&self.image_type),
            best_format: self.best_format,
            resize_width: self.resize_width,
            resize_height: self.resize_height,
            http_auth: copy_text(&self.http_auth),
            user_agent: copy_text(&self.user_agent),
            fresh: self.fresh,
            additional_options: copy_additional(&self.additional_options),
        }
    }
}

impl ScreenshotOptions {
    /// The additional options hold each name once.
    pub open spec fn wf(&self) -> bool {
        additional_wf(self.additional_options)
    }

    /// The generic option mapping of this set.
    pub fn to_request_options(&self) -> (r: RequestOptions)
        ensures
            r.wf(),
            r@ == screenshot_request(*self),
    {
        let mut options = RequestOptions::new();
        put_u32(&mut options, "vw", self.vw);
        put_u32(&mut options, "vh", self.vh);
        put_number(&mut options, "scaleFactor", &self.scale_factor);
        put_flag(&mut options, "full", self.full);
        put_u32(&mut options, "delay", self.delay);
        put_text(&mut options, "waitFor", &self.wait_for);
        put_text(&mut options, "waitForId", &self.wait_for_id);
        put_flag(&mut options, "darkMode", self.dark_mode);
        put_flag(&mut options, "transparent", self.transparent);
        put_text(&mut options, "selector", &self.selector);
        put_text(&mut options, "selectorId", &self.selector_id);
        put_flag(&mut options, "blockCookieBanners", self.block_cookie_banners);
        put_flag(&mut options, "blockAds", self.block_ads);
        put_flag(&mut options, "bypassBotDetection", self.bypass_bot_detection);
        put_text(&mut options, "type", &self.image_type);
        put_flag(&mut options, "bestFormat", self.best_format);
        put_u32(&mut options, "resizeWidth", self.resize_width);
        put_u32(&mut options, "resizeHeight", self.resize_height);
        put_text(&mut options, "httpAuth", &self.http_auth);
        put_text(&mut options, "userAgent", &self.user_agent);
        put_flag(&mut options, "fresh", self.fresh);
        merge_additional(&mut options, &self.additional_options);
        options
    }
}

/// The additional options of a screenshot set win: each holds its own
/// value in the result whatever the fields give under the same name, merging
/// them into the result once more changes nothing, and the names in the result
/// are those of the fields that are set and those of the additional options.
pub proof fn screenshot_additional_options_win(o: ScreenshotOptions)
    requires
        o.wf(),
    ensures
        forall|j: int|
            0 <= j < additional_view(o.additional_options).len() ==> lookup(
                screenshot_request(o),
                #[trigger] additional_view(o.additional_options)[j].0,
            ) == Some(additional_view(o.additional_options)[j].1),
        merge_entries(screenshot_request(o), additional_view(o.additional_options)) == screenshot_request(o),
        forall|k: Seq<char>|
            #[trigger] lookup(screenshot_request(o), k) is Some <==> (lookup(screenshot_fields(o), k) is Some
                || names_entry(additional_view(o.additional_options), k)),
{
    let add = additional_view(o.additional_options);
    lemma_additional_entries_win(screenshot_fields(o), add);
    assert forall|k: Seq<char>|
        #[trigger] lookup(screenshot_request(o), k) is Some <==> (lookup(screenshot_fields(o), k) is Some
            || names_entry(add, k)) by {
        lemma_merge_names(screenshot_fields(o), add, k);
    }
}

/// Options of a PDF capture; each field that is set becomes one query parameter.
#[derive(Debug, Default)]
pub struct PdfOptions {
    /// HTTP basic authentication for the target page.
    pub http_auth: Option<String>,
    /// User agent to load the page with.
    pub user_agent: Option<String>,
    /// Page width.
    pub width: Option<String>,
    /// Page height.
    pub height: Option<String>,
    /// Paper format.
    pub format: Option<String>,
    /// Top margin.
    pub margin_top: Option<String>,
    /// Right margin.
    pub margin_right: Option<String>,
    /// Bottom margin.
    pub margin_bottom: Option<String>,
    /// Left margin.
    pub margin_left: Option<String>,
    /// Rendering scale.
    pub scale: Option<Number>,
    /// Landscape orientation.
    pub landscape: Option<bool>,
    /// Seconds to wait before the capture.
    pub delay: Option<u32>,
    /// Name of the stored file.
    pub file_name: Option<String>,
    /// Access control of the stored file.
    pub s3_acl: Option<String>,
    /// Redirect to the stored file.
    pub s3_redirect: Option<bool>,
    /// Add a timestamp.
    pub timestamp: Option<bool>,
    /// Further options, set last, so that they win over the fields above.
    pub additional_options: Option<RequestOptions>,
}

/// The entries that the fields of a pdf set give: each field that is set,
/// under its wire name, in field order.
pub open spec fn pdf_fields(o: PdfOptions) -> Seq<Entry> {
    let e = Seq::<Entry>::empty();
    let e = put_opt(e, "httpAuth"@, text_opt(o.http_auth));
    let e = put_opt(e, "userAgent"@, text_opt(o.user_agent));
    let e = put_opt(e, "width"@, text_opt(o.width));
    let e = put_opt(e, "height"@, text_opt(o.height));
    let e = put_opt(e, "format"@, text_opt(o.format));
    let e = put_opt(e, "marginTop"@, text_opt(o.margin_top));
    let e = put_opt(e, "marginRight"@, text_opt(o.margin_right));
    let e = put_opt(e, "marginBottom"@, text_opt(o.margin_bottom));
    let e = put_opt(e, "marginLeft"@, text_opt(o.margin_left));
    let e = put_opt(e, "scale"@, num_opt(o.scale));
    let e = put_opt(e, "landscape"@, flag_opt(o.landscape));
    let e = put_opt(e, "delay"@, int_opt(o.delay));
    let e = put_opt(e, "fileName"@, text_opt(o.file_name));
    let e = put_opt(e, "s3Acl"@, text_opt(o.s3_acl));
    let e = put_opt(e, "s3Redirect"@, flag_opt(o.s3_redirect));
    let e = put_opt(e, "timestamp"@, flag_opt(o.timestamp));
    e
}

/// The option entries of a pdf set: those of its fields, then the additional
/// options over them.
pub open spec fn pdf_request(o: PdfOptions) -> Seq<Entry> {
    merge_entries(pdf_fields(o), additional_view(o.additional_options))
}

impl Clone for PdfOptions {
    /// A copy that converts to the same option entries.
    fn clone(&self) -> (r: PdfOptions)
        ensures
            pdf_request(r) == pdf_request(*self),
            r.wf(),
    {
        PdfOptions {
            http_auth: copy_text(&self.http_auth),
            user_agent: copy_text(&self.user_agent),
            width: copy_text(&self.width),
            height: copy_text(&self.height),
            format: copy_text(&self.format),
            margin_top: copy_text(&self.margin_top),
            margin_right: copy_text(&self.margin_right),
            margin_bottom: copy_text(&self.margin_bottom),
            margin_left: copy_text(&self.margin_left),
            scale: copy_number(&self.scale),
            landscape: self.landscape,
            delay: self.delay,
            file_name: copy_text(&self.file_name),
            s3_acl: copy_text(&self.s3_acl),
            s3_redirect: self.s3_redirect,
            timestamp: self.timestamp,
            additional_options: copy_additional(&self.additional_options),
        }
    }
}

impl PdfOptions {
    /// The additional options hold each name once.
    pub open spec fn wf(&self) -> bool {
        additional_wf(self.additional_options)
    }

    /// The generic option mapping of this set.
    pub fn to_request_options(&self) -> (r: RequestOptions)
        ensures
            r.wf(),
            r@ == pdf_request(*self),
    {
        let mut options = RequestOptions::new();
        put_text(&mut options, "httpAuth", &self.http_auth);
        put_text(&mut options, "userAgent", &self.user_agent);
        put_text(&mut options, "width", &self.width);
        put_text(&mut options, "height", &self.height);
        put_text(&mut options, "format", &self.format);
        put_text(&mut options, "marginTop", &self.margin_top);
        put_text(&mut options, "marginRight", &self.margin_right);
        put_text(&mut options, "marginBottom", &self.margin_bottom);
        put_text(&mut options, "marginLeft", &self.margin_left);
        put_number(&mut options, "scale", &self.scale);
        put_flag(&mut options, "landscape", self.landscape);
        put_u32(&mut options, "delay", self.delay);
        put_text(&mut options, "fileName", &self.file_name);
        put_text(&mut options, "s3Acl", &self.s3_acl);
        put_flag(&mut options, "s3Redirect", self.s3_redirect);
        put_flag(&mut options, "timestamp", self.timestamp);
        merge_additional(&mut options, &self.additional_options);
        options
    }
}

/// The additional options of a pdf set win: each holds its own
/// value in the result whatever the fields give under the same name, merging
/// them into the result once more changes nothing, and the names in the result
/// are those of the fields that are set and those of the additional options.
pub proof fn pdf_additional_options_win(o: PdfOptions)
    requires
        o.wf(),
    ensures
        forall|j: int|
            0 <= j < additional_view(o.additional_options).len() ==> lookup(
                pdf_request(o),
                #[trigger] additional_view(o.additional_options)[j].0,
            ) == Some(additional_view(o.additional_options)[j].1),
        merge_entries(pdf_request(o), additional_view(o.additional_options)) == pdf_request(o),
        forall|k: Seq<char>|
            #[trigger] lookup(pdf_request(o), k) is Some <==> (lookup(pdf_fields(o), k) is Some
                || names_entry(additional_view(o.additional_options), k)),
{
    let add = additional_view(o.additional_options);
    lemma_additional_entries_win(pdf_fields(o), add);
    assert forall|k: Seq<char>|
        #[trigger] lookup(pdf_request(o), k) is Some <==> (lookup(pdf_fields(o), k) is Some
            || names_entry(add, k)) by {
        lemma_merge_names(pdf_fields(o), add, k);
    }
}

/// Options of a page-content capture; each field that is set becomes one query parameter.
#[derive(Debug, Default)]
pub struct ContentOptions {
    /// HTTP basic authentication for the target page.
    pub http_auth: Option<String>,
    /// User agent to load the page with.
    pub user_agent: Option<String>,
    /// Seconds to wait before the capture.
    pub delay: Option<u32>,
    /// Selector to wait for.
    pub wait_for: Option<String>,
    /// Element id to wait for.
    pub wait_for_id: Option<String>,
    /// Further options, set last, so that they win over the fields above.
    pub additional_options: Option<RequestOptions>,
}

/// The entries that the fields of a content set give: each field that is set,
/// under its wire name, in field order.
pub open spec fn content_fields(o: ContentOptions) -> Seq<Entry> {
    let e = Seq::<Entry>::empty();
    let e = put_opt(e, "httpAuth"@, text_opt(o.http_auth));
    let e = put_opt(e, "userAgent"@, text_opt(o.user_agent));
    let e = put_opt(e, "delay"@, int_opt(o.delay));
    let e = put_opt(e, "waitFor"@, text_opt(o.wait_for));
    let e = put_opt(e, "waitForId"@, text_opt(o.wait_for_id));
    e
}

/// The option entries of a content set: those of its fields, then the additional
/// options over them.
pub open spec fn content_request(o: ContentOptions) -> Seq<Entry> {
    merge_entries(content_fields(o), additional_view(o.additional_options))
}

impl Clone for ContentOptions {
    /// A copy that converts to the same option entries.
    fn clone(&self) -> (r: ContentOptions)
        ensures
            content_request(r) == content_request(*self),
            r.wf(),
    {
        ContentOptions {
            http_auth: copy_text(&self.http_auth),
            user_agent: copy_text(&self.user_agent),
            delay: self.delay,
            wait_for: copy_text(&self.wait_for),
            wait_for_id: copy_text(&self.wait_for_id),
            additional_options: copy_additional(&self.additional_options),
        }
    }
}

impl ContentOptions {
    /// The additional options hold each name once.
    pub open spec fn wf(&self) -> bool {
        additional_wf(self.additional_options)
    }

    /// The generic option mapping of this set.
    pub fn to_request_options(&self) -> (r: RequestOptions)
        ensures
            r.wf(),
            r@ == content_request(*self),
    {
        let mut options = RequestOptions::new();
        put_text(&mut options, "httpAuth", &self.http_auth);
        put_text(&mut options, "userAgent", &self.user_agent);
        put_u32(&mut options, "delay", self.delay);
        put_text(&mut options, "waitFor", &self.wait_for);
        put_text(&mut options, "waitForId", &self.wait_for_id);
        merge_additional(&mut options, &self.additional_options);
        options
    }
}

/// The additional options of a content set win: each holds its own
/// value in the result whatever the fields give under the same name, merging
/// them into the result once more changes nothing, and the names in the result
/// are those of the fields that are set and those of the additional options.
pub proof fn content_additional_options_win(o: ContentOptions)
    requires
        o.wf(),
    ensures
        forall|j: int|
            0 <= j < additional_view(o.additional_options).len() ==> lookup(
                content_request(o),
                #[trigger] additional_view(o.additional_options)[j].0,
            ) == Some(additional_view(o.additional_options)[j].1),
        merge_entries(content_request(o), additional_view(o.additional_options)) == content_request(o),
        forall|k: Seq<char>|
            #[trigger] lookup(content_request(o), k) is Some <==> (lookup(content_fields(o), k) is Some
                || names_entry(additional_view(o.additional_options), k)),
{
    let add = additional_view(o.additional_options);
    lemma_additional_entries_win(content_fields(o), add);
    assert forall|k: Seq<char>|
        #[trigger] lookup(content_request(o), k) is Some <==> (lookup(content_fields(o), k) is Some
            || names_entry(add, k)) by {
        lemma_merge_names(content_fields(o), add, k);
    }
}

/// Options of a metadata capture.
#[derive(Debug, Default)]
pub struct MetadataOptions {
    /// Further options, set last, so that they win over the fields above.
    pub additional_options: Option<RequestOptions>,
}

/// The entries that the fields of a metadata set give: each field that is set,
/// under its wire name, in field order.
pub open spec fn metadata_fields(o: MetadataOptions) -> Seq<Entry> {
    let e = Seq::<Entry>::empty();
    e
}

/// The option entries of a metadata set: those of its fields, then the additional
/// options over them.
pub open spec fn metadata_request(o: MetadataOptions) -> Seq<Entry> {
    merge_entries(metadata_fields(o), additional_view(o.additional_options))
}

impl Clone for MetadataOptions {
    /// A copy that converts to the same option entries.
    fn clone(&self) -> (r: MetadataOptions)
        ensures
            metadata_request(r) == metadata_request(*self),
            r.wf(),
    {
        MetadataOptions {
            additional_options: copy_additional(&self.additional_options),
        }
    }
}

impl MetadataOptions {
    /// The additional options hold each name once.
    pub open spec fn wf(&self) -> bool {
        additional_wf(self.additional_options)
    }

    /// The generic option mapping of this set.
    pub fn to_request_options(&self) -> (r: RequestOptions)
        ensures
            r.wf(),
            r@ == metadata_request(*self),
    {
        let mut options = RequestOptions::new();
        merge_additional(&mut options, &self.additional_options);
        options
    }
}

/// The additional options of a metadata set win: each holds its own
/// value in the result whatever the fields give under the same name, merging
/// them into the result once more changes nothing, and the names in the result
/// are those of the fields that are set and those of the additional options.
pub proof fn metadata_additional_options_win(o: MetadataOptions)
    requires
        o.wf(),
    ensures
        forall|j: int|
            0 <= j < additional_view(o.additional_options).len() ==> lookup(
                metadata_request(o),
                #[trigger] additional_view(o.additional_options)[j].0,
            ) == Some(additional_view(o.additional_options)[j].1),
        merge_entries(metadata_request(o), additional_view(o.additional_options)) == metadata_request(o),
        forall|k: Seq<char>|
            #[trigger] lookup(metadata_request(o), k) is Some <==> (lookup(metadata_fields(o), k) is Some
                || names_entry(additional_view(o.additional_options), k)),
{
    let add = additional_view(o.additional_options);
    lemma_additional_entries_win(metadata_fields(o), add);
    assert forall|k: Seq<char>|
        #[trigger] lookup(metadata_request(o), k) is Some <==> (lookup(metadata_fields(o), k) is Some
            || names_entry(add, k)) by {
        lemma_merge_names(metadata_fields(o), add, k);
    }
}

} // verus!
