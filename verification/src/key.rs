//! Structured cache keys.
//!
//! An entry's identity is the pair of value-type id and segments. Prefix
//! matching looks at the segments alone, so one prefix reaches entries of
//! every value type below it.

use std::any::TypeId;
use std::sync::Arc;
use vstd::prelude::*;

verus! {

/// `std::any::TypeId`, carried as it is.
#[verifier::external_type_specification]
#[verifier::external_body]
pub struct ExTypeId(TypeId);

/// `std::any::TypeId::of`, with nothing claimed of its result: it lets
/// contracts speak of what the function may return for a given type.
pub assume_specification<T: ?Sized + 'static> [TypeId::of::<T>]() -> (id: TypeId);

/// The id of `T`: what `TypeId::of` returns for it.
pub open spec fn type_id_spec<T: 'static>() -> TypeId {
    choose|id: TypeId| call_ensures(TypeId::of::<T>, (), id)
}

/// Calls `std::any::TypeId::of`. Claims that a type has a single id: every
/// call for the same `T` returns the same value. That different types have
/// different ids is not stated.
#[verifier::external_body]
fn type_id_of<T: 'static>() -> (id: TypeId)
    ensures
        id == type_id_spec::<T>(),
{
    TypeId::of::<T>()
}

/// Calls `==` of `std::any::TypeId`. Claims that it tells ids apart exactly.
#[verifier::external_body]
fn same_type_id(a: &TypeId, b: &TypeId) -> (same: bool)
    ensures
        same == (*a == *b),
{
    a == b
}

/// Calls `Arc::<str>::from`. Claims that the text is kept.
#[verifier::external_body]
fn shared_str(text: &str) -> (shared: Arc<str>)
    ensures
        shared@ == text@,
{
    Arc::from(text)
}

/// Calls `Arc::<[T]>::from` on a vector. Claims that the elements are kept in
/// order.
#[verifier::external_body]
fn shared_slice<T>(items: Vec<T>) -> (shared: Arc<[T]>)
    ensures
        shared@ == items@,
{
    Arc::from(items)
}

/// One structured segment of a [`QueryKey`].
#[derive(PartialEq, Eq, Hash, Debug)]
pub enum Segment {
    /// A string segment.
    Str(Arc<str>),
    /// An unsigned integer segment.
    U64(u64),
    /// A signed integer segment.
    I64(i64),
    /// A boolean segment.
    Bool(bool),
    /// An opaque byte segment.
    Bytes(Arc<[u8]>),
}

/// What a [`Segment`] holds.
pub enum SegmentModel {
    /// Text of a string segment.
    Str(Seq<char>),
    /// Value of an unsigned segment.
    U64(u64),
    /// Value of a signed segment.
    I64(i64),
    /// Value of a boolean segment.
    Bool(bool),
    /// Bytes of a byte segment.
    Bytes(Seq<u8>),
}

impl View for Segment {
    type V = SegmentModel;

    open spec fn view(&self) -> SegmentModel {
        match self {
            Segment::Str(text) => SegmentModel::Str(text@),
            Segment::U64(n) => SegmentModel::U64(*n),
            Segment::I64(n) => SegmentModel::I64(*n),
            Segment::Bool(b) => SegmentModel::Bool(*b),
            Segment::Bytes(bytes) => SegmentModel::Bytes(bytes@),
        }
    }
}

/// What a list of segments holds, in order.
pub open spec fn segments_model(segments: Seq<Segment>) -> Seq<SegmentModel> {
    segments.map_values(|s: Segment| s@)
}

fn same_bytes(a: &[u8], b: &[u8]) -> (same: bool)
    ensures
        same == (a@ == b@),
{
    if a.len() != b.len() {
        return false;
    }
    let mut i: usize = 0;
    while i < a.len()
        invariant
            i <= a@.len(),
            a@.len() == b@.len(),
            forall|j: int| 0 <= j < i ==> a@[j] == b@[j],
        decreases a@.len() - i,
    {
        if a[i] != b[i] {
            return false;
        }
        i = i + 1;
    }
    assert(a@ =~= b@);
    true
}

fn same_text(a: &str, b: &str) -> (same: bool)
    ensures
        same == (a@ == b@),
{
    proof {
        vstd::utf8::encode_utf8_decode_utf8(a@);
        vstd::utf8::encode_utf8_decode_utf8(b@);
    }
    same_bytes(a.as_bytes(), b.as_bytes())
}

impl Clone for Segment {
    fn clone(&self) -> (segment: Self)
        ensures
            segment@ == self@,
    {
        match self {
            Segment::Str(text) => Segment::Str(text.clone()),
            Segment::U64(n) => Segment::U64(*n),
            Segment::I64(n) => Segment::I64(*n),
            Segment::Bool(b) => Segment::Bool(*b),
            Segment::Bytes(bytes) => Segment::Bytes(bytes.clone()),
        }
    }
}

impl Segment {
    /// Whether two segments are of one kind and hold the same value.
    pub fn same(&self, other: &Segment) -> (same: bool)
        ensures
            same == (self@ == other@),
    {
        match (self, other) {
            (Segment::Str(a), Segment::Str(b)) => same_text(a, b),
            (Segment::U64(a), Segment::U64(b)) => *a == *b,
            (Segment::I64(a), Segment::I64(b)) => *a == *b,
            (Segment::Bool(a), Segment::Bool(b)) => *a == *b,
            (Segment::Bytes(a), Segment::Bytes(b)) => same_bytes(a, b),
            _ => false,
        }
    }
}

/// Structured cache key: value-type id plus ordered segments.
///
/// Two keys are one and the same exactly when both parts agree. The same
/// segments under different value types are different entries.
#[derive(PartialEq, Eq, Hash)]
pub struct QueryKey {
    type_id: TypeId,
    segments: Arc<[Segment]>,
}

/// What a [`QueryKey`] stands for.
#[verifier::ext_equal]
pub struct KeyModel {
    /// Id of the value-type pair.
    pub type_id: TypeId,
    /// Ordered segments.
    pub segments: Seq<SegmentModel>,
}

impl KeyModel {
    /// Whether the segments start with `prefix`. The type id plays no part.
    pub open spec fn under(self, prefix: Seq<SegmentModel>) -> bool {
        prefix.is_prefix_of(self.segments)
    }
}

impl View for QueryKey {
    type V = KeyModel;

    closed spec fn view(&self) -> KeyModel {
        KeyModel { type_id: self.type_id, segments: segments_model(self.segments@) }
    }
}

impl Clone for QueryKey {
    fn clone(&self) -> (key: Self)
        ensures
            key@ == self@,
    {
        QueryKey { type_id: self.type_id, segments: self.segments.clone() }
    }
}

impl QueryKey {
    /// Builds a key binding `segments` to the value types `(T, E)`.
    pub fn new<T: 'static, E: 'static>(segments: impl IntoSegments) -> (key: Self)
        ensures
            key@ == (KeyModel {
                type_id: type_id_spec::<(T, E)>(),
                segments: segments.segments_spec(),
            }),
    {
        QueryKey {
            type_id: type_id_of::<(T, E)>(),
            segments: shared_slice(segments.into_segments()),
        }
    }

    /// The ordered segments of this key.
    pub fn segments(&self) -> (segments: &[Segment])
        ensures
            segments_model(segments@) == self@.segments,
    {
        &self.segments
    }

    /// Whether two keys name the same entry.
    pub fn same(&self, other: &QueryKey) -> (same: bool)
        ensures
            same == (self@ == other@),
    {
        if !same_type_id(&self.type_id, &other.type_id) {
            return false;
        }
        assert(self@.segments.len() == self.segments@.len());
        assert(other@.segments.len() == other.segments@.len());
        if self.segments.len() != other.segments.len() {
            return false;
        }
        proof {
            let mine = self@.segments;
            let theirs = other@.segments;
            assert(mine.is_prefix_of(theirs) ==> mine =~= theirs);
        }
        other.matches_prefix(&self.segments)
    }

    /// Prefix match on the segments only; the type id is ignored.
    pub fn matches_prefix(&self, prefix: &[Segment]) -> (matched: bool)
        ensures
            matched == self@.under(segments_model(prefix@)),
    {
        if self.segments.len() < prefix.len() {
            return false;
        }
        let ghost wanted = segments_model(prefix@);
        let ghost have = self@.segments;
        let mut i: usize = 0;
        while i < prefix.len()
            invariant
                i <= prefix@.len() <= self.segments@.len(),
                wanted == segments_model(prefix@),
                have == segments_model(self.segments@),
                forall|j: int| 0 <= j < i ==> wanted[j] == have[j],
            decreases prefix@.len() - i,
        {
            assert(prefix@[i as int]@ == wanted[i as int]);
            assert(self.segments@[i as int]@ == have[i as int]);
            if !prefix[i].same(&self.segments[i]) {
                return false;
            }
            i = i + 1;
        }
        assert(wanted =~= have.subrange(0, wanted.len() as int));
        true
    }
}

/// Converts a value into one key [`Segment`].
pub trait IntoSegment: Sized {
    /// The segment that the value stands for.
    spec fn segment_spec(&self) -> SegmentModel;

    /// Performs the conversion.
    fn into_segment(self) -> (segment: Segment)
        ensures
            segment@ == self.segment_spec(),
    ;
}

impl IntoSegment for Segment {
    open spec fn segment_spec(&self) -> SegmentModel {
        self@
    }

    fn into_segment(self) -> (segment: Segment) {
        self
    }
}

impl IntoSegment for &str {
    open spec fn segment_spec(&self) -> SegmentModel {
        SegmentModel::Str(self@)
    }

    fn into_segment(self) -> (segment: Segment) {
        Segment::Str(shared_str(self))
    }
}

impl IntoSegment for String {
    open spec fn segment_spec(&self) -> SegmentModel {
        SegmentModel::Str(self@)
    }

    fn into_segment(self) -> (segment: Segment) {
        Segment::Str(shared_str(self.as_str()))
    }
}

impl IntoSegment for Arc<str> {
    open spec fn segment_spec(&self) -> SegmentModel {
        SegmentModel::Str(self@)
    }

    fn into_segment(self) -> (segment: Segment) {
        Segment::Str(self)
    }
}

impl IntoSegment for u64 {
    open spec fn segment_spec(&self) -> SegmentModel {
        SegmentModel::U64(*self)
    }

    fn into_segment(self) -> (segment: Segment) {
        Segment::U64(self)
    }
}

impl IntoSegment for u32 {
    open spec fn segment_spec(&self) -> SegmentModel {
        SegmentModel::U64(*self as u64)
    }

    fn into_segment(self) -> (segment: Segment) {
        Segment::U64(self as u64)
    }
}

impl IntoSegment for i64 {
    open spec fn segment_spec(&self) -> SegmentModel {
        SegmentModel::I64(*self)
    }

    fn into_segment(self) -> (segment: Segment) {
        Segment::I64(self)
    }
}

impl IntoSegment for i32 {
    open spec fn segment_spec(&self) -> SegmentModel {
        SegmentModel::I64(*self as i64)
    }

    fn into_segment(self) -> (segment: Segment) {
        Segment::I64(self as i64)
    }
}

impl IntoSegment for bool {
    open spec fn segment_spec(&self) -> SegmentModel {
        SegmentModel::Bool(*self)
    }

    fn into_segment(self) -> (segment: Segment) {
        Segment::Bool(self)
    }
}

impl IntoSegment for Vec<u8> {
    open spec fn segment_spec(&self) -> SegmentModel {
        SegmentModel::Bytes(self@)
    }

    fn into_segment(self) -> (segment: Segment) {
        Segment::Bytes(shared_slice(self))
    }
}

impl IntoSegment for &[u8] {
    open spec fn segment_spec(&self) -> SegmentModel {
        SegmentModel::Bytes(self@)
    }

    fn into_segment(self) -> (segment: Segment) {
        Segment::Bytes(shared_slice(vstd::slice::slice_to_vec(self)))
    }
}

/// Converts a value into a full ordered segment list: a key body or a prefix.
///
/// Implemented for `&str` and `String` (single segment), `Vec<Segment>`, and
/// tuples of up to eight [`IntoSegment`] elements.
pub trait IntoSegments: Sized {
    /// The segments that the value stands for, in order.
    spec fn segments_spec(&self) -> Seq<SegmentModel>;

    /// Performs the conversion.
    fn into_segments(self) -> (segments: Vec<Segment>)
        ensures
            segments_model(segments@) == self.segments_spec(),
    ;
}

impl IntoSegments for &str {
    open spec fn segments_spec(&self) -> Seq<SegmentModel> {
        seq![self.segment_spec()]
    }

    fn into_segments(self) -> (segments: Vec<Segment>) {
        let segments = vec![self.into_segment()];
        assert(segments_model(segments@) =~= self.segments_spec());
        segments
    }
}

impl IntoSegments for String {
    open spec fn segments_spec(&self) -> Seq<SegmentModel> {
        seq![self.segment_spec()]
    }

    fn into_segments(self) -> (segments: Vec<Segment>) {
        let segments = vec![self.into_segment()];
        assert(segments_model(segments@) =~= self.segments_spec());
        segments
    }
}

impl IntoSegments for Vec<Segment> {
    open spec fn segments_spec(&self) -> Seq<SegmentModel> {
        segments_model(self@)
    }

    fn into_segments(self) -> (segments: Vec<Segment>) {
        self
    }
}

impl<A: IntoSegment> IntoSegments for (A,) {
    open spec fn segments_spec(&self) -> Seq<SegmentModel> {
        seq![self.0.segment_spec()]
    }

    fn into_segments(self) -> (segments: Vec<Segment>) {
        let segments = vec![self.0.into_segment()];
        assert(segments_model(segments@) =~= self.segments_spec());
        segments
    }
}

impl<A: IntoSegment, B: IntoSegment> IntoSegments for (A, B) {
    open spec fn segments_spec(&self) -> Seq<SegmentModel> {
        seq![self.0.segment_spec(), self.1.segment_spec()]
    }

    fn into_segments(self) -> (segments: Vec<Segment>) {
        let segments = vec![self.0.into_segment(), self.1.into_segment()];
        assert(segments_model(segments@) =~= self.segments_spec());
        segments
    }
}

impl<A: IntoSegment, B: IntoSegment, C: IntoSegment> IntoSegments for (A, B, C) {
    open spec fn segments_spec(&self) -> Seq<SegmentModel> {
        seq![
            self.0.segment_spec(),
            self.1.segment_spec(),
            self.2.segment_spec(),
        ]
    }

    fn into_segments(self) -> (segments: Vec<Segment>) {
        let segments = vec![
            self.0.into_segment(),
            self.1.into_segment(),
            self.2.into_segment(),
        ];
        assert(segments_model(segments@) =~= self.segments_spec());
        segments
    }
}

impl<A: IntoSegment, B: IntoSegment, C: IntoSegment, D: IntoSegment> IntoSegments for (A, B, C, D) {
    open spec fn segments_spec(&self) -> Seq<SegmentModel> {
        seq![
            self.0.segment_spec(),
            self.1.segment_spec(),
            self.2.segment_spec(),
            self.3.segment_spec(),
        ]
    }

    fn into_segments(self) -> (segments: Vec<Segment>) {
        let segments = vec![
            self.0.into_segment(),
            self.1.into_segment(),
            self.2.into_segment(),
            self.3.into_segment(),
        ];
        assert(segments_model(segments@) =~= self.segments_spec());
        segments
    }
}

impl<
    A: IntoSegment,
    B: IntoSegment,
    C: IntoSegment,
    D: IntoSegment,
    E: IntoSegment,
> IntoSegments for (A, B, C, D, E) {
    open spec fn segments_spec(&self) -> Seq<SegmentModel> {
        seq![
            self.0.segment_spec(),
            self.1.segment_spec(),
            self.2.segment_spec(),
            self.3.segment_spec(),
            self.4.segment_spec(),
        ]
    }

    fn into_segments(self) -> (segments: Vec<Segment>) {
        let segments = vec![
            self.0.into_segment(),
            self.1.into_segment(),
            self.2.into_segment(),
            self.3.into_segment(),
            self.4.into_segment(),
        ];
        assert(segments_model(segments@) =~= self.segments_spec());
        segments
    }
}

impl<
    A: IntoSegment,
    B: IntoSegment,
    C: IntoSegment,
    D: IntoSegment,
    E: IntoSegment,
    F: IntoSegment,
> IntoSegments for (A, B, C, D, E, F) {
    open spec fn segments_spec(&self) -> Seq<SegmentModel> {
        seq![
            self.0.segment_spec(),
            self.1.segment_spec(),
            self.2.segment_spec(),
            self.3.segment_spec(),
            self.4.segment_spec(),
            self.5.segment_spec(),
        ]
    }

    fn into_segments(self) -> (segments: Vec<Segment>) {
        let segments = vec![
            self.0.into_segment(),
            self.1.into_segment(),
            self.2.into_segment(),
            self.3.into_segment(),
            self.4.into_segment(),
            self.5.into_segment(),
        ];
        assert(segments_model(segments@) =~= self.segments_spec());
        segments
    }
}

impl<
    A: IntoSegment,
    B: IntoSegment,
    C: IntoSegment,
    D: IntoSegment,
    E: IntoSegment,
    F: IntoSegment,
    G: IntoSegment,
> IntoSegments for (A, B, C, D, E, F, G) {
    open spec fn segments_spec(&self) -> Seq<SegmentModel> {
        seq![
            self.0.segment_spec(),
            self.1.segment_spec(),
            self.2.segment_spec(),
            self.3.segment_spec(),
            self.4.segment_spec(),
            self.5.segment_spec(),
            self.6.segment_spec(),
        ]
    }

    fn into_segments(self) -> (segments: Vec<Segment>) {
        let segments = vec![
            self.0.into_segment(),
            self.1.into_segment(),
            self.2.into_segment(),
            self.3.into_segment(),
            self.4.into_segment(),
            self.5.into_segment(),
            self.6.into_segment(),
        ];
        assert(segments_model(segments@) =~= self.segments_spec());
        segments
    }
}

impl<
    A: IntoSegment,
    B: IntoSegment,
    C: IntoSegment,
    D: IntoSegment,
    E: IntoSegment,
    F: IntoSegment,
    G: IntoSegment,
    H: IntoSegment,
> IntoSegments for (A, B, C, D, E, F, G, H) {
    open spec fn segments_spec(&self) -> Seq<SegmentModel> {
        seq![
            self.0.segment_spec(),
            self.1.segment_spec(),
            self.2.segment_spec(),
            self.3.segment_spec(),
            self.4.segment_spec(),
            self.5.segment_spec(),
            self.6.segment_spec(),
            self.7.segment_spec(),
        ]
    }

    fn into_segments(self) -> (segments: Vec<Segment>) {
        let segments = vec![
            self.0.into_segment(),
            self.1.into_segment(),
            self.2.into_segment(),
            self.3.into_segment(),
            self.4.into_segment(),
            self.5.into_segment(),
            self.6.into_segment(),
            self.7.into_segment(),
        ];
        assert(segments_model(segments@) =~= self.segments_spec());
        segments
    }
}

/// Key construction: binds segments to the value types `(T, E)`.
pub trait IntoQueryKey<T: 'static, E: 'static>: Sized {
    /// The key that the value stands for.
    spec fn query_key_spec(&self) -> KeyModel;

    /// Performs the conversion.
    fn into_query_key(self) -> (key: QueryKey)
        ensures
            key@ == self.query_key_spec(),
    ;
}

impl<T: 'static, E: 'static, K: IntoSegments> IntoQueryKey<T, E> for K {
    open spec fn query_key_spec(&self) -> KeyModel {
        KeyModel { type_id: type_id_spec::<(T, E)>(), segments: self.segments_spec() }
    }

    fn into_query_key(self) -> (key: QueryKey) {
        QueryKey::new::<T, E>(self)
    }
}

/// A key prefix for invalidation.
pub trait IntoKeyPrefix: Sized {
    /// The prefix that the value stands for.
    spec fn prefix_spec(&self) -> Seq<SegmentModel>;

    /// Performs the conversion.
    fn into_prefix(self) -> (prefix: Vec<Segment>)
        ensures
            segments_model(prefix@) == self.prefix_spec(),
    ;
}

impl<K: IntoSegments> IntoKeyPrefix for K {
    open spec fn prefix_spec(&self) -> Seq<SegmentModel> {
        self.segments_spec()
    }

    fn into_prefix(self) -> (prefix: Vec<Segment>) {
        self.into_segments()
    }
}

/// A key lies under its own segments and under the empty prefix.
pub proof fn law_key_lies_under_itself(key: KeyModel)
    ensures
        key.under(key.segments),
        key.under(Seq::empty()),
{
    assert(key.segments =~= key.segments.subrange(0, key.segments.len() as int));
    assert(Seq::<SegmentModel>::empty() =~= key.segments.subrange(0, 0));
}

/// A longer prefix reaches fewer keys: whatever lies under it lies under each
/// of its own prefixes.
pub proof fn law_longer_prefix_is_narrower(
    key: KeyModel,
    long: Seq<SegmentModel>,
    short: Seq<SegmentModel>,
)
    requires
        key.under(long),
        short.is_prefix_of(long),
    ensures
        key.under(short),
{
    assert(short =~= key.segments.subrange(0, short.len() as int));
}

/// Prefix matching ignores the value types: keys with the same segments match
/// the same prefixes.
pub proof fn law_prefix_ignores_types(a: KeyModel, b: KeyModel, prefix: Seq<SegmentModel>)
    requires
        a.segments == b.segments,
    ensures
        a.under(prefix) == b.under(prefix),
{
}

/// A key lies under a prefix exactly when its segments are those of the prefix,
/// followed by others or by none.
pub proof fn law_a_prefix_is_what_a_key_starts_with(key: KeyModel, prefix: Seq<SegmentModel>)
    ensures
        key.under(prefix) <==> exists|rest: Seq<SegmentModel>| key.segments == #[trigger] (prefix
            + rest),
{
    if key.under(prefix) {
        let n = prefix.len() as int;
        let rest = key.segments.subrange(n, key.segments.len() as int);
        assert(prefix == key.segments.subrange(0, n));
        assert(key.segments =~= prefix + rest);
    }
    if exists|rest: Seq<SegmentModel>| key.segments == #[trigger] (prefix + rest) {
        let rest = choose|rest: Seq<SegmentModel>| key.segments == #[trigger] (prefix + rest);
        assert(prefix =~= (prefix + rest).subrange(0, prefix.len() as int));
    }
}

/// What names a key also names a prefix, and the key lies under it, whatever the
/// value types.
pub proof fn law_a_key_lies_under_its_own_name<T: 'static, E: 'static, K: IntoSegments>(name: K)
    ensures
        <K as IntoQueryKey<T, E>>::query_key_spec(&name).segments == name.prefix_spec(),
        <K as IntoQueryKey<T, E>>::query_key_spec(&name).under(name.prefix_spec()),
        <K as IntoQueryKey<T, E>>::query_key_spec(&name).type_id == type_id_spec::<(T, E)>(),
{
    law_key_lies_under_itself(<K as IntoQueryKey<T, E>>::query_key_spec(&name));
}

/// Numbers keep their value and their sign's kind: two make the same segment exactly
/// when they are equal, and unsigned ones never make the segment of signed ones, nor
/// either that of a text.
pub proof fn law_numbers_tell_segments_apart(
    a: u64,
    b: u32,
    c: i64,
    d: i32,
    e: u64,
    f: i64,
    text: &str,
)
    ensures
        a.segment_spec() == e.segment_spec() <==> a == e,
        a.segment_spec() == b.segment_spec() <==> a == b,
        c.segment_spec() == f.segment_spec() <==> c == f,
        c.segment_spec() == d.segment_spec() <==> c == d,
        a.segment_spec() != c.segment_spec(),
        a.segment_spec() != text.segment_spec(),
        c.segment_spec() != text.segment_spec(),
{
}

/// Texts make the same segment exactly when they hold the same characters, whatever
/// holds them. So do booleans and bytes for their values.
pub proof fn law_texts_tell_segments_apart(
    a: &str,
    b: String,
    c: Arc<str>,
    d: bool,
    e: bool,
    f: Vec<u8>,
    g: &[u8],
)
    ensures
        a.segment_spec() == b.segment_spec() <==> a@ == b@,
        a.segment_spec() == c.segment_spec() <==> a@ == c@,
        d.segment_spec() == e.segment_spec() <==> d == e,
        f.segment_spec() == g.segment_spec() <==> f@ == g@,
        a.segment_spec() != d.segment_spec(),
        a.segment_spec() != f.segment_spec(),
        a.segments_spec() == b.segments_spec() <==> a@ == b@,
        a.segments_spec() == (a,).segments_spec(),
{
    assert(a.segments_spec()[0] == a.segment_spec());
    assert(b.segments_spec()[0] == b.segment_spec());
}

/// A tuple names what its parts name, in order: each longer one adds the segment of
/// its last part at the end. So a shorter tuple of the same parts is a prefix.
pub proof fn law_tuples_name_their_parts_in_order<
    A: IntoSegment,
    B: IntoSegment,
    C: IntoSegment,
    D: IntoSegment,
    E: IntoSegment,
    F: IntoSegment,
    G: IntoSegment,
    H: IntoSegment,
>(a: A, b: B, c: C, d: D, e: E, f: F, g: G, h: H)
    ensures
        (a,).segments_spec() == Seq::empty().push(a.segment_spec()),
        (a, b).segments_spec() == (a,).segments_spec().push(b.segment_spec()),
        (a, b, c).segments_spec() == (a, b).segments_spec().push(c.segment_spec()),
        (a, b, c, d).segments_spec() == (a, b, c).segments_spec().push(d.segment_spec()),
        (a, b, c, d, e).segments_spec() == (a, b, c, d).segments_spec().push(e.segment_spec()),
        (a, b, c, d, e, f).segments_spec() == (a, b, c, d, e).segments_spec().push(
            f.segment_spec(),
        ),
        (a, b, c, d, e, f, g).segments_spec() == (a, b, c, d, e, f).segments_spec().push(
            g.segment_spec(),
        ),
        (a, b, c, d, e, f, g, h).segments_spec() == (a, b, c, d, e, f, g).segments_spec().push(
            h.segment_spec(),
        ),
{
    assert((a,).segments_spec() =~= Seq::empty().push(a.segment_spec()));
    assert((a, b).segments_spec() =~= (a,).segments_spec().push(b.segment_spec()));
    assert((a, b, c).segments_spec() =~= (a, b).segments_spec().push(c.segment_spec()));
    assert((a, b, c, d).segments_spec() =~= (a, b, c).segments_spec().push(d.segment_spec()));
    assert((a, b, c, d, e).segments_spec() =~= (a, b, c, d).segments_spec().push(
        e.segment_spec(),
    ));
    assert((a, b, c, d, e, f).segments_spec() =~= (a, b, c, d, e).segments_spec().push(
        f.segment_spec(),
    ));
    assert((a, b, c, d, e, f, g).segments_spec() =~= (a, b, c, d, e, f).segments_spec().push(
        g.segment_spec(),
    ));
    assert((a, b, c, d, e, f, g, h).segments_spec() =~= (a, b, c, d, e, f, g).segments_spec().push(
        h.segment_spec(),
    ));
}

/// Ready-made segments are taken as they are, one or many.
pub proof fn law_ready_made_segments_are_taken_as_they_are(
    segment: Segment,
    segments: Vec<Segment>,
    i: int,
)
    ensures
        segment.segment_spec() == segment@,
        segments.segments_spec().len() == segments@.len(),
        0 <= i < segments@.len() ==> segments.segments_spec()[i] == segments@[i]@,
{
}

} // verus!
