//! The request side of the protocol codec: the six PowerDNS remote-backend
//! methods as a tagged union, and the decoding of one request line.
//!
//! A request line is a JSON object holding exactly a `method` name and a
//! `parameters` object. The method name picks the variant; the parameters
//! are then checked field by field: a missing required field, a repeated
//! field, a field of the wrong type, or an unknown method are decode errors,
//! each answered by the caller with the generic negative reply rather than
//! by closing the connection. Unknown parameter fields are ignored. The wire
//! keys `zone-id`, `real-remote` and `domain-id` carry hyphens; all text
//! fields hold the string's bytes.

use vstd::prelude::*;
use crate::json::{
    sp_parse, parse_json, members_view, lemma_members_view, JsonV, JsonValue,
};

verus! {

broadcast use lemma_members_view;

/// Why a request line was refused.
#[derive(Debug, Clone, Copy, PartialEq, Eq, Structural)]
pub enum DecodeError {
    /// The line is not well-formed JSON (or nests too deep).
    Syntax,
    /// The line is JSON, but not an object holding exactly `method` (a
    /// string) and `parameters`.
    Envelope,
    /// The method name is none of the six known ones.
    UnknownMethod,
    /// `parameters` is no object, misses a required field, repeats a field,
    /// or gives a field the wrong type.
    Parameters,
}

/// Parameters of `initialize`: the connector's path and optional timeout.
#[derive(Debug, PartialEq, Eq)]
pub struct InitializeParams {
    pub path: Vec<u8>,
    pub timeout: Option<Vec<u8>>,
}

/// Parameters of `lookup`: what the DNS server asks the backend to resolve.
#[derive(Debug, PartialEq, Eq)]
pub struct LookupParams {
    pub qtype: Vec<u8>,
    pub qname: Vec<u8>,
    pub zone_id: i64,
    pub remote: Option<Vec<u8>>,
    pub local: Option<Vec<u8>>,
    pub real_remote: Option<Vec<u8>>,
}

/// Parameters of `list`: a zone enumeration request.
#[derive(Debug, PartialEq, Eq)]
pub struct ListParams {
    pub zonename: Vec<u8>,
    pub domain_id: Option<i64>,
}

/// Parameters of `getDomainInfo`.
#[derive(Debug, PartialEq, Eq)]
pub struct GetDomainInfoParams {
    pub name: Vec<u8>,
}

/// Parameters of `directBackendCmd`.
#[derive(Debug, PartialEq, Eq)]
pub struct DirectBackendCmdParams {
    pub query: Vec<u8>,
}

/// Parameters of `getAllDomains`.
#[derive(Debug, PartialEq, Eq)]
pub struct GetAllDomainsParams {
    pub include_disabled: bool,
}

/// One decoded request.
#[derive(Debug, PartialEq, Eq)]
pub enum Query {
    Initialize(InitializeParams),
    Lookup(LookupParams),
    List(ListParams),
    GetDomainInfo(GetDomainInfoParams),
    DirectBackendCmd(DirectBackendCmdParams),
    GetAllDomains(GetAllDomainsParams),
}

/// The mathematical shape of [`InitializeParams`].
pub struct InitializeParamsV {
    pub path: Seq<u8>,
    pub timeout: Option<Seq<u8>>,
}

/// The mathematical shape of [`LookupParams`].
pub struct LookupParamsV {
    pub qtype: Seq<u8>,
    pub qname: Seq<u8>,
    pub zone_id: i64,
    pub remote: Option<Seq<u8>>,
    pub local: Option<Seq<u8>>,
    pub real_remote: Option<Seq<u8>>,
}

/// The mathematical shape of [`ListParams`].
pub struct ListParamsV {
    pub zonename: Seq<u8>,
    pub domain_id: Option<i64>,
}

/// The mathematical shape of [`GetDomainInfoParams`].
pub struct GetDomainInfoParamsV {
    pub name: Seq<u8>,
}

/// The mathematical shape of [`DirectBackendCmdParams`].
pub struct DirectBackendCmdParamsV {
    pub query: Seq<u8>,
}

/// The mathematical shape of [`GetAllDomainsParams`].
pub struct GetAllDomainsParamsV {
    pub include_disabled: bool,
}

/// The mathematical shape of [`Query`].
pub enum QueryV {
    Initialize(InitializeParamsV),
    Lookup(LookupParamsV),
    List(ListParamsV),
    GetDomainInfo(GetDomainInfoParamsV),
    DirectBackendCmd(DirectBackendCmdParamsV),
    GetAllDomains(GetAllDomainsParamsV),
}

/// An optional byte field's shape.
pub open spec fn opt_bytes_view(o: Option<Vec<u8>>) -> Option<Seq<u8>> {
    match o {
        Some(v) => Some(v@),
        None => None,
    }
}

impl View for InitializeParams {
    type V = InitializeParamsV;

    open spec fn view(&self) -> InitializeParamsV {
        InitializeParamsV { path: self.path@, timeout: opt_bytes_view(self.timeout) }
    }
}

impl View for LookupParams {
    type V = LookupParamsV;

    open spec fn view(&self) -> LookupParamsV {
        LookupParamsV {
            qtype: self.qtype@,
            qname: self.qname@,
            zone_id: self.zone_id,
            remote: opt_bytes_view(self.remote),
            local: opt_bytes_view(self.local),
            real_remote: opt_bytes_view(self.real_remote),
        }
    }
}

impl View for ListParams {
    type V = ListParamsV;

    open spec fn view(&self) -> ListParamsV {
        ListParamsV { zonename: self.zonename@, domain_id: self.domain_id }
    }
}

impl View for GetDomainInfoParams {
    type V = GetDomainInfoParamsV;

    open spec fn view(&self) -> GetDomainInfoParamsV {
        GetDomainInfoParamsV { name: self.name@ }
    }
}

impl View for DirectBackendCmdParams {
    type V = DirectBackendCmdParamsV;

    open spec fn view(&self) -> DirectBackendCmdParamsV {
        DirectBackendCmdParamsV { query: self.query@ }
    }
}

impl View for GetAllDomainsParams {
    type V = GetAllDomainsParamsV;

    open spec fn view(&self) -> GetAllDomainsParamsV {
        GetAllDomainsParamsV { include_disabled: self.include_disabled }
    }
}

impl View for Query {
    type V = QueryV;

    open spec fn view(&self) -> QueryV {
        match self {
            Query::Initialize(p) => QueryV::Initialize(p@),
            Query::Lookup(p) => QueryV::Lookup(p@),
            Query::List(p) => QueryV::List(p@),
            Query::GetDomainInfo(p) => QueryV::GetDomainInfo(p@),
            Query::DirectBackendCmd(p) => QueryV::DirectBackendCmd(p@),
            Query::GetAllDomains(p) => QueryV::GetAllDomains(p@),
        }
    }
}

// ---------------------------------------------------------------------------
// Wire names.
// ---------------------------------------------------------------------------

/// The wire key or method name `method`.
pub open spec fn k_method() -> Seq<u8> {
    seq![0x6du8, 0x65, 0x74, 0x68, 0x6f, 0x64]
}

fn k_method_bytes() -> (v: Vec<u8>)
    ensures
        v@ == k_method(),
{
    let mut v: Vec<u8> = Vec::new();
    v.push(0x6d);
    v.push(0x65);
    v.push(0x74);
    v.push(0x68);
    v.push(0x6f);
    v.push(0x64);
    proof {
        assert(v@ =~= k_method());
    }
    v
}

/// The wire key or method name `parameters`.
pub open spec fn k_parameters() -> Seq<u8> {
    seq![0x70u8, 0x61, 0x72, 0x61, 0x6d, 0x65, 0x74, 0x65, 0x72, 0x73]
}

fn k_parameters_bytes() -> (v: Vec<u8>)
    ensures
        v@ == k_parameters(),
{
    let mut v: Vec<u8> = Vec::new();
    v.push(0x70);
    v.push(0x61);
    v.push(0x72);
    v.push(0x61);
    v.push(0x6d);
    v.push(0x65);
    v.push(0x74);
    v.push(0x65);
    v.push(0x72);
    v.push(0x73);
    proof {
        assert(v@ =~= k_parameters());
    }
    v
}

/// The wire key or method name `initialize`.
pub open spec fn k_m_initialize() -> Seq<u8> {
    seq![0x69u8, 0x6e, 0x69, 0x74, 0x69, 0x61, 0x6c, 0x69, 0x7a, 0x65]
}

fn k_m_initialize_bytes() -> (v: Vec<u8>)
    ensures
        v@ == k_m_initialize(),
{
    let mut v: Vec<u8> = Vec::new();
    v.push(0x69);
    v.push(0x6e);
    v.push(0x69);
    v.push(0x74);
    v.push(0x69);
    v.push(0x61);
    v.push(0x6c);
    v.push(0x69);
    v.push(0x7a);
    v.push(0x65);
    proof {
        assert(v@ =~= k_m_initialize());
    }
    v
}

/// The wire key or method name `lookup`.
pub open spec fn k_m_lookup() -> Seq<u8> {
    seq![0x6cu8, 0x6f, 0x6f, 0x6b, 0x75, 0x70]
}

fn k_m_lookup_bytes() -> (v: Vec<u8>)
    ensures
        v@ == k_m_lookup(),
{
    let mut v: Vec<u8> = Vec::new();
    v.push(0x6c);
    v.push(0x6f);
    v.push(0x6f);
    v.push(0x6b);
    v.push(0x75);
    v.push(0x70);
    proof {
        assert(v@ =~= k_m_lookup());
    }
    v
}

/// The wire key or method name `list`.
pub open spec fn k_m_list() -> Seq<u8> {
    seq![0x6cu8, 0x69, 0x73, 0x74]
}

fn k_m_list_bytes() -> (v: Vec<u8>)
    ensures
        v@ == k_m_list(),
{
    let mut v: Vec<u8> = Vec::new();
    v.push(0x6c);
    v.push(0x69);
    v.push(0x73);
    v.push(0x74);
    proof {
        assert(v@ =~= k_m_list());
    }
    v
}

/// The wire key or method name `getDomainInfo`.
pub open spec fn k_m_get_domain_info() -> Seq<u8> {
    seq![0x67u8, 0x65, 0x74, 0x44, 0x6f, 0x6d, 0x61, 0x69, 0x6e, 0x49, 0x6e, 0x66, 0x6f]
}

fn k_m_get_domain_info_bytes() -> (v: Vec<u8>)
    ensures
        v@ == k_m_get_domain_info(),
{
    let mut v: Vec<u8> = Vec::new();
    v.push(0x67);
    v.push(0x65);
    v.push(0x74);
    v.push(0x44);
    v.push(0x6f);
    v.push(0x6d);
    v.push(0x61);
    v.push(0x69);
    v.push(0x6e);
    v.push(0x49);
    v.push(0x6e);
    v.push(0x66);
    v.push(0x6f);
    proof {
        assert(v@ =~= k_m_get_domain_info());
    }
    v
}

/// The wire key or method name `directBackendCmd`.
pub open spec fn k_m_direct_backend_cmd() -> Seq<u8> {
    seq![0x64u8, 0x69, 0x72, 0x65, 0x63, 0x74, 0x42, 0x61, 0x63, 0x6b, 0x65, 0x6e, 0x64, 0x43, 0x6d, 0x64]
}

fn k_m_direct_backend_cmd_bytes() -> (v: Vec<u8>)
    ensures
        v@ == k_m_direct_backend_cmd(),
{
    let mut v: Vec<u8> = Vec::new();
    v.push(0x64);
    v.push(0x69);
    v.push(0x72);
    v.push(0x65);
    v.push(0x63);
    v.push(0x74);
    v.push(0x42);
    v.push(0x61);
    v.push(0x63);
    v.push(0x6b);
    v.push(0x65);
    v.push(0x6e);
    v.push(0x64);
    v.push(0x43);
    v.push(0x6d);
    v.push(0x64);
    proof {
        assert(v@ =~= k_m_direct_backend_cmd());
    }
    v
}

/// The wire key or method name `getAllDomains`.
pub open spec fn k_m_get_all_domains() -> Seq<u8> {
    seq![0x67u8, 0x65, 0x74, 0x41, 0x6c, 0x6c, 0x44, 0x6f, 0x6d, 0x61, 0x69, 0x6e, 0x73]
}

fn k_m_get_all_domains_bytes() -> (v: Vec<u8>)
    ensures
        v@ == k_m_get_all_domains(),
{
    let mut v: Vec<u8> = Vec::new();
    v.push(0x67);
    v.push(0x65);
    v.push(0x74);
    v.push(0x41);
    v.push(0x6c);
    v.push(0x6c);
    v.push(0x44);
    v.push(0x6f);
    v.push(0x6d);
    v.push(0x61);
    v.push(0x69);
    v.push(0x6e);
    v.push(0x73);
    proof {
        assert(v@ =~= k_m_get_all_domains());
    }
    v
}

/// The wire key or method name `path`.
pub open spec fn k_path() -> Seq<u8> {
    seq![0x70u8, 0x61, 0x74, 0x68]
}

fn k_path_bytes() -> (v: Vec<u8>)
    ensures
        v@ == k_path(),
{
    let mut v: Vec<u8> = Vec::new();
    v.push(0x70);
    v.push(0x61);
    v.push(0x74);
    v.push(0x68);
    proof {
        assert(v@ =~= k_path());
    }
    v
}

/// The wire key or method name `timeout`.
pub open spec fn k_timeout() -> Seq<u8> {
    seq![0x74u8, 0x69, 0x6d, 0x65, 0x6f, 0x75, 0x74]
}

fn k_timeout_bytes() -> (v: Vec<u8>)
    ensures
        v@ == k_timeout(),
{
    let mut v: Vec<u8> = Vec::new();
    v.push(0x74);
    v.push(0x69);
    v.push(0x6d);
    v.push(0x65);
    v.push(0x6f);
    v.push(0x75);
    v.push(0x74);
    proof {
        assert(v@ =~= k_timeout());
    }
    v
}

/// The wire key or method name `qtype`.
pub open spec fn k_qtype() -> Seq<u8> {
    seq![0x71u8, 0x74, 0x79, 0x70, 0x65]
}

fn k_qtype_bytes() -> (v: Vec<u8>)
    ensures
        v@ == k_qtype(),
{
    let mut v: Vec<u8> = Vec::new();
    v.push(0x71);
    v.push(0x74);
    v.push(0x79);
    v.push(0x70);
    v.push(0x65);
    proof {
        assert(v@ =~= k_qtype());
    }
    v
}

/// The wire key or method name `qname`.
pub open spec fn k_qname() -> Seq<u8> {
    seq![0x71u8, 0x6e, 0x61, 0x6d, 0x65]
}

fn k_qname_bytes() -> (v: Vec<u8>)
    ensures
        v@ == k_qname(),
{
    let mut v: Vec<u8> = Vec::new();
    v.push(0x71);
    v.push(0x6e);
    v.push(0x61);
    v.push(0x6d);
    v.push(0x65);
    proof {
        assert(v@ =~= k_qname());
    }
    v
}

/// The wire key or method name `zone-id`.
pub open spec fn k_zone_id() -> Seq<u8> {
    seq![0x7au8, 0x6f, 0x6e, 0x65, 0x2d, 0x69, 0x64]
}

fn k_zone_id_bytes() -> (v: Vec<u8>)
    ensures
        v@ == k_zone_id(),
{
    let mut v: Vec<u8> = Vec::new();
    v.push(0x7a);
    v.push(0x6f);
    v.push(0x6e);
    v.push(0x65);
    v.push(0x2d);
    v.push(0x69);
    v.push(0x64);
    proof {
        assert(v@ =~= k_zone_id());
    }
    v
}

/// The wire key or method name `remote`.
pub open spec fn k_remote() -> Seq<u8> {
    seq![0x72u8, 0x65, 0x6d, 0x6f, 0x74, 0x65]
}

fn k_remote_bytes() -> (v: Vec<u8>)
    ensures
        v@ == k_remote(),
{
    let mut v: Vec<u8> = Vec::new();
    v.push(0x72);
    v.push(0x65);
    v.push(0x6d);
    v.push(0x6f);
    v.push(0x74);
    v.push(0x65);
    proof {
        assert(v@ =~= k_remote());
    }
    v
}

/// The wire key or method name `local`.
pub open spec fn k_local_addr() -> Seq<u8> {
    seq![0x6cu8, 0x6f, 0x63, 0x61, 0x6c]
}

fn k_local_addr_bytes() -> (v: Vec<u8>)
    ensures
        v@ == k_local_addr(),
{
    let mut v: Vec<u8> = Vec::new();
    v.push(0x6c);
    v.push(0x6f);
    v.push(0x63);
    v.push(0x61);
    v.push(0x6c);
    proof {
        assert(v@ =~= k_local_addr());
    }
    v
}

/// The wire key or method name `real-remote`.
pub open spec fn k_real_remote() -> Seq<u8> {
    seq![0x72u8, 0x65, 0x61, 0x6c, 0x2d, 0x72, 0x65, 0x6d, 0x6f, 0x74, 0x65]
}

fn k_real_remote_bytes() -> (v: Vec<u8>)
    ensures
        v@ == k_real_remote(),
{
    let mut v: Vec<u8> = Vec::new();
    v.push(0x72);
    v.push(0x65);
    v.push(0x61);
    v.push(0x6c);
    v.push(0x2d);
    v.push(0x72);
    v.push(0x65);
    v.push(0x6d);
    v.push(0x6f);
    v.push(0x74);
    v.push(0x65);
    proof {
        assert(v@ =~= k_real_remote());
    }
    v
}

/// The wire key or method name `zonename`.
pub open spec fn k_zonename() -> Seq<u8> {
    seq![0x7au8, 0x6f, 0x6e, 0x65, 0x6e, 0x61, 0x6d, 0x65]
}

fn k_zonename_bytes() -> (v: Vec<u8>)
    ensures
        v@ == k_zonename(),
{
    let mut v: Vec<u8> = Vec::new();
    v.push(0x7a);
    v.push(0x6f);
    v.push(0x6e);
    v.push(0x65);
    v.push(0x6e);
    v.push(0x61);
    v.push(0x6d);
    v.push(0x65);
    proof {
        assert(v@ =~= k_zonename());
    }
    v
}

/// The wire key or method name `domain-id`.
pub open spec fn k_domain_id() -> Seq<u8> {
    seq![0x64u8, 0x6f, 0x6d, 0x61, 0x69, 0x6e, 0x2d, 0x69, 0x64]
}

fn k_domain_id_bytes() -> (v: Vec<u8>)
    ensures
        v@ == k_domain_id(),
{
    let mut v: Vec<u8> = Vec::new();
    v.push(0x64);
    v.push(0x6f);
    v.push(0x6d);
    v.push(0x61);
    v.push(0x69);
    v.push(0x6e);
    v.push(0x2d);
    v.push(0x69);
    v.push(0x64);
    proof {
        assert(v@ =~= k_domain_id());
    }
    v
}

/// The wire key or method name `name`.
pub open spec fn k_name() -> Seq<u8> {
    seq![0x6eu8, 0x61, 0x6d, 0x65]
}

fn k_name_bytes() -> (v: Vec<u8>)
    ensures
        v@ == k_name(),
{
    let mut v: Vec<u8> = Vec::new();
    v.push(0x6e);
    v.push(0x61);
    v.push(0x6d);
    v.push(0x65);
    proof {
        assert(v@ =~= k_name());
    }
    v
}

/// The wire key or method name `query`.
pub open spec fn k_query_field() -> Seq<u8> {
    seq![0x71u8, 0x75, 0x65, 0x72, 0x79]
}

fn k_query_field_bytes() -> (v: Vec<u8>)
    ensures
        v@ == k_query_field(),
{
    let mut v: Vec<u8> = Vec::new();
    v.push(0x71);
    v.push(0x75);
    v.push(0x65);
    v.push(0x72);
    v.push(0x79);
    proof {
        assert(v@ =~= k_query_field());
    }
    v
}

/// The wire key or method name `include_disabled`.
pub open spec fn k_include_disabled() -> Seq<u8> {
    seq![0x69u8, 0x6e, 0x63, 0x6c, 0x75, 0x64, 0x65, 0x5f, 0x64, 0x69, 0x73, 0x61, 0x62, 0x6c, 0x65, 0x64]
}

fn k_include_disabled_bytes() -> (v: Vec<u8>)
    ensures
        v@ == k_include_disabled(),
{
    let mut v: Vec<u8> = Vec::new();
    v.push(0x69);
    v.push(0x6e);
    v.push(0x63);
    v.push(0x6c);
    v.push(0x75);
    v.push(0x64);
    v.push(0x65);
    v.push(0x5f);
    v.push(0x64);
    v.push(0x69);
    v.push(0x73);
    v.push(0x61);
    v.push(0x62);
    v.push(0x6c);
    v.push(0x65);
    v.push(0x64);
    proof {
        assert(v@ =~= k_include_disabled());
    }
    v
}

// ---------------------------------------------------------------------------
// Field lookup in a decoded object.
// ---------------------------------------------------------------------------

/// How often `k` occurs as a key among the members.
pub open spec fn key_count(ms: Seq<(Seq<u8>, JsonV)>, k: Seq<u8>) -> nat
    decreases ms.len(),
{
    if ms.len() == 0 {
        0
    } else {
        key_count(ms.drop_last(), k) + if ms.last().0 == k {
            1nat
        } else {
            0nat
        }
    }
}

/// The value under key `k` (the last occurrence; validation only reads it
/// where the key occurs exactly once).
pub open spec fn key_value(ms: Seq<(Seq<u8>, JsonV)>, k: Seq<u8>) -> JsonV
    decreases ms.len(),
{
    if ms.len() == 0 {
        JsonV::Null
    } else if ms.last().0 == k {
        ms.last().1
    } else {
        key_value(ms.drop_last(), k)
    }
}

/// A required string field: present exactly once, a string.
pub open spec fn sp_req_bytes(ms: Seq<(Seq<u8>, JsonV)>, k: Seq<u8>) -> Option<Seq<u8>> {
    if key_count(ms, k) == 1 {
        match key_value(ms, k) {
            JsonV::Str(b) => Some(b),
            _ => None,
        }
    } else {
        None
    }
}

/// An optional string field: absent or `null` gives `None`; present once as
/// a string gives the string; anything else is an error (outer `None`).
pub open spec fn sp_opt_bytes(ms: Seq<(Seq<u8>, JsonV)>, k: Seq<u8>) -> Option<Option<Seq<u8>>> {
    if key_count(ms, k) == 0 {
        Some(None)
    } else if key_count(ms, k) == 1 {
        match key_value(ms, k) {
            JsonV::Str(b) => Some(Some(b)),
            JsonV::Null => Some(None),
            _ => None,
        }
    } else {
        None
    }
}

/// A required integer field: present exactly once, an integer fitting `i64`.
pub open spec fn sp_req_i64(ms: Seq<(Seq<u8>, JsonV)>, k: Seq<u8>) -> Option<i64> {
    if key_count(ms, k) == 1 {
        match key_value(ms, k) {
            JsonV::Int(n) => Some(n),
            _ => None,
        }
    } else {
        None
    }
}

/// An optional integer field, like [`sp_opt_bytes`].
pub open spec fn sp_opt_i64(ms: Seq<(Seq<u8>, JsonV)>, k: Seq<u8>) -> Option<Option<i64>> {
    if key_count(ms, k) == 0 {
        Some(None)
    } else if key_count(ms, k) == 1 {
        match key_value(ms, k) {
            JsonV::Int(n) => Some(Some(n)),
            JsonV::Null => Some(None),
            _ => None,
        }
    } else {
        None
    }
}

/// A required boolean field.
pub open spec fn sp_req_bool(ms: Seq<(Seq<u8>, JsonV)>, k: Seq<u8>) -> Option<bool> {
    if key_count(ms, k) == 1 {
        match key_value(ms, k) {
            JsonV::Bool(b) => Some(b),
            _ => None,
        }
    } else {
        None
    }
}

/// Byte-for-byte equality of two slices.
pub(crate) fn slice_eq(a: &[u8], b: &[u8]) -> (r: bool)
    ensures
        r == (a@ == b@),
{
    if a.len() != b.len() {
        return false;
    }
    let n = a.len();
    let mut i: usize = 0;
    while i < n
        invariant
            n == a@.len() == b@.len(),
            i <= n,
            forall|j: int| 0 <= j < i ==> a@[j] == b@[j],
        decreases n - i,
    {
        if a[i] != b[i] {
            return false;
        }
        i = i + 1;
    }
    proof {
        assert(a@ =~= b@);
    }
    true
}

/// A fresh copy of the bytes.
fn copy_bytes(v: &Vec<u8>) -> (r: Vec<u8>)
    ensures
        r@ == v@,
{
    let mut r: Vec<u8> = Vec::new();
    let n = v.len();
    let mut i: usize = 0;
    while i < n
        invariant
            n == v@.len(),
            i <= n,
            r@ == v@.take(i as int),
        decreases n - i,
    {
        r.push(v[i]);
        proof {
            assert(v@.take(i as int).push(v@[i as int]) =~= v@.take(i as int + 1));
        }
        i = i + 1;
    }
    proof {
        assert(v@.take(n as int) =~= v@);
    }
    r
}

/// Scans the members for `key`: how often it occurs, and where it last did.
pub(crate) fn scan_field(ms: &Vec<(Vec<u8>, JsonValue)>, key: &[u8]) -> (r: (usize, usize))
    ensures
        r.0 as int == key_count(members_view(ms@), key@),
        r.0 > 0 ==> r.1 < ms@.len() && ms@[r.1 as int].0@ == key@ && ms@[r.1 as int].1@
            == key_value(members_view(ms@), key@),
{
    let n = ms.len();
    let mut i: usize = 0;
    let mut cnt: usize = 0;
    let mut last: usize = 0;
    while i < n
        invariant
            n == ms@.len(),
            i <= n,
            cnt <= i,
            cnt as int == key_count(members_view(ms@.take(i as int)), key@),
            cnt > 0 ==> last < i && ms@[last as int].0@ == key@ && ms@[last as int].1@
                == key_value(members_view(ms@.take(i as int)), key@),
        decreases n - i,
    {
        let hit = slice_eq(ms[i].0.as_slice(), key);
        proof {
            let t = ms@.take(i as int + 1);
            assert(t.drop_last() =~= ms@.take(i as int));
            assert(t.last() == ms@[i as int]);
            let mv1 = members_view(t);
            let mv0 = members_view(ms@.take(i as int));
            assert(mv1 == mv0.push((ms@[i as int].0@, ms@[i as int].1@)));
            assert(mv1.drop_last() =~= mv0);
            assert(mv1.last() == (ms@[i as int].0@, ms@[i as int].1@));
            assert(key_count(mv1, key@) == key_count(mv0, key@) + if ms@[i as int].0@ == key@ {
                1nat
            } else {
                0nat
            });
        }
        if hit {
            cnt = cnt + 1;
            last = i;
        }
        i = i + 1;
    }
    proof {
        assert(ms@.take(n as int) =~= ms@);
    }
    (cnt, last)
}

/// A required string field, as [`sp_req_bytes`].
fn get_req_bytes(ms: &Vec<(Vec<u8>, JsonValue)>, key: &[u8]) -> (r: Option<Vec<u8>>)
    ensures
        match (r, sp_req_bytes(members_view(ms@), key@)) {
            (Some(v), Some(g)) => v@ == g,
            (None, None) => true,
            _ => false,
        },
{
    let (cnt, idx) = scan_field(ms, key);
    if cnt == 1 {
        match &ms[idx].1 {
            JsonValue::Str(b) => Some(copy_bytes(b)),
            _ => None,
        }
    } else {
        None
    }
}

/// An optional string field, as [`sp_opt_bytes`].
fn get_opt_bytes(ms: &Vec<(Vec<u8>, JsonValue)>, key: &[u8]) -> (r: Option<Option<Vec<u8>>>)
    ensures
        match (r, sp_opt_bytes(members_view(ms@), key@)) {
            (Some(v), Some(g)) => opt_bytes_view(v) == g,
            (None, None) => true,
            _ => false,
        },
{
    let (cnt, idx) = scan_field(ms, key);
    if cnt == 0 {
        Some(None)
    } else if cnt == 1 {
        match &ms[idx].1 {
            JsonValue::Str(b) => Some(Some(copy_bytes(b))),
            JsonValue::Null => Some(None),
            _ => None,
        }
    } else {
        None
    }
}

/// A required integer field, as [`sp_req_i64`].
fn get_req_i64(ms: &Vec<(Vec<u8>, JsonValue)>, key: &[u8]) -> (r: Option<i64>)
    ensures
        r == sp_req_i64(members_view(ms@), key@),
{
    let (cnt, idx) = scan_field(ms, key);
    if cnt == 1 {
        match &ms[idx].1 {
            JsonValue::Int(n) => Some(*n),
            _ => None,
        }
    } else {
        None
    }
}

/// An optional integer field, as [`sp_opt_i64`].
fn get_opt_i64(ms: &Vec<(Vec<u8>, JsonValue)>, key: &[u8]) -> (r: Option<Option<i64>>)
    ensures
        r == sp_opt_i64(members_view(ms@), key@),
{
    let (cnt, idx) = scan_field(ms, key);
    if cnt == 0 {
        Some(None)
    } else if cnt == 1 {
        match &ms[idx].1 {
            JsonValue::Int(n) => Some(Some(*n)),
            JsonValue::Null => Some(None),
            _ => None,
        }
    } else {
        None
    }
}

/// A required boolean field, as [`sp_req_bool`].
fn get_req_bool(ms: &Vec<(Vec<u8>, JsonValue)>, key: &[u8]) -> (r: Option<bool>)
    ensures
        r == sp_req_bool(members_view(ms@), key@),
{
    let (cnt, idx) = scan_field(ms, key);
    if cnt == 1 {
        match &ms[idx].1 {
            JsonValue::Bool(b) => Some(*b),
            _ => None,
        }
    } else {
        None
    }
}

// ---------------------------------------------------------------------------
// Per-method parameter validation.
// ---------------------------------------------------------------------------

/// `initialize` parameters from the members, or `None` on a field error.
pub open spec fn sp_params_initialize(ps: Seq<(Seq<u8>, JsonV)>) -> Option<InitializeParamsV> {
    match sp_req_bytes(ps, k_path()) {
        None => None,
        Some(path) => match sp_opt_bytes(ps, k_timeout()) {
            None => None,
            Some(timeout) => Some(InitializeParamsV { path, timeout }),
        },
    }
}

/// `lookup` parameters from the members, or `None` on a field error.
pub open spec fn sp_params_lookup(ps: Seq<(Seq<u8>, JsonV)>) -> Option<LookupParamsV> {
    match (sp_req_bytes(ps, k_qtype()), sp_req_bytes(ps, k_qname()), sp_req_i64(ps, k_zone_id())) {
        (Some(qtype), Some(qname), Some(zone_id)) => {
            match (
                sp_opt_bytes(ps, k_remote()),
                sp_opt_bytes(ps, k_local_addr()),
                sp_opt_bytes(ps, k_real_remote()),
            ) {
                (Some(remote), Some(local), Some(real_remote)) => Some(
                    LookupParamsV { qtype, qname, zone_id, remote, local, real_remote },
                ),
                _ => None,
            }
        },
        _ => None,
    }
}

/// `list` parameters from the members, or `None` on a field error.
pub open spec fn sp_params_list(ps: Seq<(Seq<u8>, JsonV)>) -> Option<ListParamsV> {
    match (sp_req_bytes(ps, k_zonename()), sp_opt_i64(ps, k_domain_id())) {
        (Some(zonename), Some(domain_id)) => Some(ListParamsV { zonename, domain_id }),
        _ => None,
    }
}

/// `getDomainInfo` parameters from the members, or `None` on a field error.
pub open spec fn sp_params_get_domain_info(ps: Seq<(Seq<u8>, JsonV)>) -> Option<
    GetDomainInfoParamsV,
> {
    match sp_req_bytes(ps, k_name()) {
        Some(name) => Some(GetDomainInfoParamsV { name }),
        None => None,
    }
}

/// `directBackendCmd` parameters from the members, or `None` on a field error.
pub open spec fn sp_params_direct_backend_cmd(ps: Seq<(Seq<u8>, JsonV)>) -> Option<
    DirectBackendCmdParamsV,
> {
    match sp_req_bytes(ps, k_query_field()) {
        Some(query) => Some(DirectBackendCmdParamsV { query }),
        None => None,
    }
}

/// `getAllDomains` parameters from the members, or `None` on a field error.
pub open spec fn sp_params_get_all_domains(ps: Seq<(Seq<u8>, JsonV)>) -> Option<
    GetAllDomainsParamsV,
> {
    match sp_req_bool(ps, k_include_disabled()) {
        Some(include_disabled) => Some(GetAllDomainsParamsV { include_disabled }),
        None => None,
    }
}

/// Whether `name` is one of the six method names.
pub open spec fn sp_known_method(name: Seq<u8>) -> bool {
    ||| name == k_m_initialize()
    ||| name == k_m_lookup()
    ||| name == k_m_list()
    ||| name == k_m_get_domain_info()
    ||| name == k_m_direct_backend_cmd()
    ||| name == k_m_get_all_domains()
}

/// Picks the variant by method name and validates the parameter members.
pub open spec fn sp_dispatch(name: Seq<u8>, ps: Seq<(Seq<u8>, JsonV)>) -> Result<
    QueryV,
    DecodeError,
> {
    if name == k_m_initialize() {
        match sp_params_initialize(ps) {
            Some(p) => Ok(QueryV::Initialize(p)),
            None => Err(DecodeError::Parameters),
        }
    } else if name == k_m_lookup() {
        match sp_params_lookup(ps) {
            Some(p) => Ok(QueryV::Lookup(p)),
            None => Err(DecodeError::Parameters),
        }
    } else if name == k_m_list() {
        match sp_params_list(ps) {
            Some(p) => Ok(QueryV::List(p)),
            None => Err(DecodeError::Parameters),
        }
    } else if name == k_m_get_domain_info() {
        match sp_params_get_domain_info(ps) {
            Some(p) => Ok(QueryV::GetDomainInfo(p)),
            None => Err(DecodeError::Parameters),
        }
    } else if name == k_m_direct_backend_cmd() {
        match sp_params_direct_backend_cmd(ps) {
            Some(p) => Ok(QueryV::DirectBackendCmd(p)),
            None => Err(DecodeError::Parameters),
        }
    } else if name == k_m_get_all_domains() {
        match sp_params_get_all_domains(ps) {
            Some(p) => Ok(QueryV::GetAllDomains(p)),
            None => Err(DecodeError::Parameters),
        }
    } else {
        Err(DecodeError::UnknownMethod)
    }
}

/// The request a parsed line's value carries, if any.
pub open spec fn sp_query_of(v: JsonV) -> Result<QueryV, DecodeError> {
    match v {
        JsonV::Obj(ms) => {
            if !(ms.len() == 2 && key_count(ms, k_method()) == 1 && key_count(ms, k_parameters())
                == 1) {
                Err(DecodeError::Envelope)
            } else {
                match key_value(ms, k_method()) {
                    JsonV::Str(name) => match key_value(ms, k_parameters()) {
                        JsonV::Obj(ps) => sp_dispatch(name, ps),
                        _ => if sp_known_method(name) {
                            Err(DecodeError::Parameters)
                        } else {
                            Err(DecodeError::UnknownMethod)
                        },
                    },
                    _ => Err(DecodeError::Envelope),
                }
            }
        },
        _ => Err(DecodeError::Envelope),
    }
}

/// What decoding one request line yields: the request, or why it is refused.
pub open spec fn sp_decode_query(line: Seq<u8>) -> Result<QueryV, DecodeError> {
    match sp_parse(line) {
        None => Err(DecodeError::Syntax),
        Some(v) => sp_query_of(v),
    }
}

/// Decodes one request line; returns exactly [`sp_decode_query`] of it.
pub fn decode_query(line: &[u8]) -> (r: Result<Query, DecodeError>)
    ensures
        match (r, sp_decode_query(line@)) {
            (Ok(q), Ok(g)) => q@ == g,
            (Err(e), Err(ge)) => e == ge,
            _ => false,
        },
{
    let v = match parse_json(line) {
        None => {
            return Err(DecodeError::Syntax);
        },
        Some(v) => v,
    };
    match v {
        JsonValue::Obj(ms) => {
            let mk = k_method_bytes();
            let pk = k_parameters_bytes();
            let (mc, mi) = scan_field(&ms, mk.as_slice());
            let (pc, pi) = scan_field(&ms, pk.as_slice());
            if !(ms.len() == 2 && mc == 1 && pc == 1) {
                return Err(DecodeError::Envelope);
            }
            let name = match &ms[mi].1 {
                JsonValue::Str(b) => b,
                _ => {
                    return Err(DecodeError::Envelope);
                },
            };
            match &ms[pi].1 {
                JsonValue::Obj(ps) => dispatch_query(name, ps),
                _ => {
                    if known_method(name) {
                        Err(DecodeError::Parameters)
                    } else {
                        Err(DecodeError::UnknownMethod)
                    }
                },
            }
        },
        _ => Err(DecodeError::Envelope),
    }
}

/// Whether `name` is one of the six method names, as [`sp_known_method`].
fn known_method(name: &Vec<u8>) -> (r: bool)
    ensures
        r == sp_known_method(name@),
{
    let k1 = k_m_initialize_bytes();
    let k2 = k_m_lookup_bytes();
    let k3 = k_m_list_bytes();
    let k4 = k_m_get_domain_info_bytes();
    let k5 = k_m_direct_backend_cmd_bytes();
    let k6 = k_m_get_all_domains_bytes();
    slice_eq(name.as_slice(), k1.as_slice()) || slice_eq(name.as_slice(), k2.as_slice())
        || slice_eq(name.as_slice(), k3.as_slice()) || slice_eq(name.as_slice(), k4.as_slice())
        || slice_eq(name.as_slice(), k5.as_slice()) || slice_eq(name.as_slice(), k6.as_slice())
}

/// Executable mirror of [`sp_dispatch`].
fn dispatch_query(name: &Vec<u8>, ps: &Vec<(Vec<u8>, JsonValue)>) -> (r: Result<
    Query,
    DecodeError,
>)
    ensures
        match (r, sp_dispatch(name@, members_view(ps@))) {
            (Ok(q), Ok(g)) => q@ == g,
            (Err(e), Err(ge)) => e == ge,
            _ => false,
        },
{
    let k1 = k_m_initialize_bytes();
    if slice_eq(name.as_slice(), k1.as_slice()) {
        return match params_initialize(ps) {
            Some(p) => Ok(Query::Initialize(p)),
            None => Err(DecodeError::Parameters),
        };
    }
    let k2 = k_m_lookup_bytes();
    if slice_eq(name.as_slice(), k2.as_slice()) {
        return match params_lookup(ps) {
            Some(p) => Ok(Query::Lookup(p)),
            None => Err(DecodeError::Parameters),
        };
    }
    let k3 = k_m_list_bytes();
    if slice_eq(name.as_slice(), k3.as_slice()) {
        return match params_list(ps) {
            Some(p) => Ok(Query::List(p)),
            None => Err(DecodeError::Parameters),
        };
    }
    let k4 = k_m_get_domain_info_bytes();
    if slice_eq(name.as_slice(), k4.as_slice()) {
        return match params_get_domain_info(ps) {
            Some(p) => Ok(Query::GetDomainInfo(p)),
            None => Err(DecodeError::Parameters),
        };
    }
    let k5 = k_m_direct_backend_cmd_bytes();
    if slice_eq(name.as_slice(), k5.as_slice()) {
        return match params_direct_backend_cmd(ps) {
            Some(p) => Ok(Query::DirectBackendCmd(p)),
            None => Err(DecodeError::Parameters),
        };
    }
    let k6 = k_m_get_all_domains_bytes();
    if slice_eq(name.as_slice(), k6.as_slice()) {
        return match params_get_all_domains(ps) {
            Some(p) => Ok(Query::GetAllDomains(p)),
            None => Err(DecodeError::Parameters),
        };
    }
    Err(DecodeError::UnknownMethod)
}

/// Executable mirror of [`sp_params_initialize`].
fn params_initialize(ps: &Vec<(Vec<u8>, JsonValue)>) -> (r: Option<InitializeParams>)
    ensures
        match (r, sp_params_initialize(members_view(ps@))) {
            (Some(p), Some(g)) => p@ == g,
            (None, None) => true,
            _ => false,
        },
{
    let kp = k_path_bytes();
    let path = match get_req_bytes(ps, kp.as_slice()) {
        None => {
            return None;
        },
        Some(v) => v,
    };
    let kt = k_timeout_bytes();
    let timeout = match get_opt_bytes(ps, kt.as_slice()) {
        None => {
            return None;
        },
        Some(t) => t,
    };
    Some(InitializeParams { path, timeout })
}

/// Executable mirror of [`sp_params_lookup`].
fn params_lookup(ps: &Vec<(Vec<u8>, JsonValue)>) -> (r: Option<LookupParams>)
    ensures
        match (r, sp_params_lookup(members_view(ps@))) {
            (Some(p), Some(g)) => p@ == g,
            (None, None) => true,
            _ => false,
        },
{
    let kqt = k_qtype_bytes();
    let qtype = match get_req_bytes(ps, kqt.as_slice()) {
        None => {
            return None;
        },
        Some(v) => v,
    };
    let kqn = k_qname_bytes();
    let qname = match get_req_bytes(ps, kqn.as_slice()) {
        None => {
            return None;
        },
        Some(v) => v,
    };
    let kz = k_zone_id_bytes();
    let zone_id = match get_req_i64(ps, kz.as_slice()) {
        None => {
            return None;
        },
        Some(v) => v,
    };
    let kr = k_remote_bytes();
    let remote = match get_opt_bytes(ps, kr.as_slice()) {
        None => {
            return None;
        },
        Some(v) => v,
    };
    let kl = k_local_addr_bytes();
    let local = match get_opt_bytes(ps, kl.as_slice()) {
        None => {
            return None;
        },
        Some(v) => v,
    };
    let krr = k_real_remote_bytes();
    let real_remote = match get_opt_bytes(ps, krr.as_slice()) {
        None => {
            return None;
        },
        Some(v) => v,
    };
    Some(LookupParams { qtype, qname, zone_id, remote, local, real_remote })
}

/// Executable mirror of [`sp_params_list`].
fn params_list(ps: &Vec<(Vec<u8>, JsonValue)>) -> (r: Option<ListParams>)
    ensures
        match (r, sp_params_list(members_view(ps@))) {
            (Some(p), Some(g)) => p@ == g,
            (None, None) => true,
            _ => false,
        },
{
    let kz = k_zonename_bytes();
    let zonename = match get_req_bytes(ps, kz.as_slice()) {
        None => {
            return None;
        },
        Some(v) => v,
    };
    let kd = k_domain_id_bytes();
    let domain_id = match get_opt_i64(ps, kd.as_slice()) {
        None => {
            return None;
        },
        Some(v) => v,
    };
    Some(ListParams { zonename, domain_id })
}

/// Executable mirror of [`sp_params_get_domain_info`].
fn params_get_domain_info(ps: &Vec<(Vec<u8>, JsonValue)>) -> (r: Option<GetDomainInfoParams>)
    ensures
        match (r, sp_params_get_domain_info(members_view(ps@))) {
            (Some(p), Some(g)) => p@ == g,
            (None, None) => true,
            _ => false,
        },
{
    let kn = k_name_bytes();
    match get_req_bytes(ps, kn.as_slice()) {
        None => None,
        Some(name) => Some(GetDomainInfoParams { name }),
    }
}

/// Executable mirror of [`sp_params_direct_backend_cmd`].
fn params_direct_backend_cmd(ps: &Vec<(Vec<u8>, JsonValue)>) -> (r: Option<DirectBackendCmdParams>)
    ensures
        match (r, sp_params_direct_backend_cmd(members_view(ps@))) {
            (Some(p), Some(g)) => p@ == g,
            (None, None) => true,
            _ => false,
        },
{
    let kq = k_query_field_bytes();
    match get_req_bytes(ps, kq.as_slice()) {
        None => None,
        Some(query) => Some(DirectBackendCmdParams { query }),
    }
}

/// Executable mirror of [`sp_params_get_all_domains`].
fn params_get_all_domains(ps: &Vec<(Vec<u8>, JsonValue)>) -> (r: Option<GetAllDomainsParams>)
    ensures
        match (r, sp_params_get_all_domains(members_view(ps@))) {
            (Some(p), Some(g)) => p@ == g,
            (None, None) => true,
            _ => false,
        },
{
    let ki = k_include_disabled_bytes();
    match get_req_bool(ps, ki.as_slice()) {
        None => None,
        Some(include_disabled) => Some(GetAllDomainsParams { include_disabled }),
    }
}

} // verus!
