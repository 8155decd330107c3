use vstd::prelude::*;

verus! {

/// Why a store refused a call.
#[derive(PartialEq, Eq, Structural, Clone, Copy, Debug)]
pub enum StoreError {
    /// A record or entry with that identifier is already stored.
    DuplicateId,
    /// No record or entry has that identifier.
    NotFound,
}

impl StoreError {
    /// A short description of the error.
    pub fn message(&self) -> (r: String)
        ensures
            *self == StoreError::DuplicateId ==> r@ == "id already exists"@,
            *self == StoreError::NotFound ==> r@ == "no entry with that id"@,
    {
        match self {
            StoreError::DuplicateId => "id already exists".to_string(),
            StoreError::NotFound => "no entry with that id".to_string(),
        }
    }
}

/// A store of records: read all, read one, create, replace by identifier.
pub trait DataSource<T> {
    type Id;

    fn get_all(&self) -> Result<Vec<T>, StoreError>;

    fn update(&mut self, value: T) -> Result<T, StoreError>;

    fn get(&self, id: Self::Id) -> Result<T, StoreError>;

    fn create(&mut self, value: T) -> Result<T, StoreError>;
}

/// A log of import reports: append an entry, acknowledge one, and replace the
/// message of one in place.
pub trait Reporter<T> {
    type Id;

    fn report(&mut self, value: T) -> Result<T, StoreError>;

    fn acknowledge(&mut self, id: Self::Id) -> Result<(), StoreError>;

    fn finish(&mut self, id: Self::Id, message: String) -> Result<(), StoreError>;
}

/// What readers of the report log see: every entry, or only the opening entries
/// that nobody has acknowledged.
pub trait NotificationRepository<T> {
    fn get_all(&self) -> Result<Vec<T>, StoreError>;

    fn get_new(&self) -> Result<Vec<T>, StoreError>;
}

/// Number of attributes of a circuit record, the identifier included.
pub const CIRCUIT_FIELD_COUNT: usize = 20;

/// One telecom link's attribute set, keyed by an opaque identifier.
///
/// As a CSV row its columns come in the order of the fields below.
#[derive(Clone, Debug)]
pub struct Circuit {
    pub id: String,
    pub state: String,
    pub site_name: String,
    pub ckt_id: String,
    pub parent: String,
    pub link_type: String,
    pub provider: String,
    pub z_loc: String,
    pub rtr_name_z_loc: String,
    pub to_description: String,
    pub rtr_port_z_loc: String,
    pub interf_ip_z_loc: String,
    pub a_loc: String,
    pub rtr_name_a_loc: String,
    pub rtr_port: String,
    pub interf_ip_a_loc: String,
    pub bw_mbps: String,
    pub single_isp: String,
    pub ups_closet: String,
    pub router_ip: String,
}

impl View for Circuit {
    /// The attributes in column order, the identifier first.
    type V = Seq<Seq<char>>;

    open spec fn view(&self) -> Seq<Seq<char>> {
        seq![
            self.id@, self.state@, self.site_name@, self.ckt_id@, self.parent@,
            self.link_type@, self.provider@, self.z_loc@, self.rtr_name_z_loc@,
            self.to_description@, self.rtr_port_z_loc@, self.interf_ip_z_loc@, self.a_loc@,
            self.rtr_name_a_loc@, self.rtr_port@, self.interf_ip_a_loc@, self.bw_mbps@,
            self.single_isp@, self.ups_closet@, self.router_ip@,
        ]
    }
}

/// The column names of a circuit CSV, in column order.
pub open spec fn column_names() -> Seq<Seq<char>> {
    seq![
        "id"@, "state"@, "site_name"@, "ckt_id"@, "parent"@, "link_type"@, "provider"@,
        "z_loc"@, "rtr_name_z_loc"@, "to_description"@, "rtr_port_z_loc"@,
        "interf_ip_z_loc"@, "a_loc"@, "rtr_name_a_loc"@, "rtr_port"@, "interf_ip_a_loc"@,
        "bw_mbps"@, "single_isp"@, "ups_closet"@, "router_ip"@,
    ]
}

/// The column names of a circuit CSV, in column order.
pub fn column_header() -> (r: Vec<String>)
    ensures
        strings_view(r@) == column_names(),
{
    let mut v: Vec<String> = Vec::new();
    v.push("id".to_string());
    v.push("state".to_string());
    v.push("site_name".to_string());
    v.push("ckt_id".to_string());
    v.push("parent".to_string());
    v.push("link_type".to_string());
    v.push("provider".to_string());
    v.push("z_loc".to_string());
    v.push("rtr_name_z_loc".to_string());
    v.push("to_description".to_string());
    v.push("rtr_port_z_loc".to_string());
    v.push("interf_ip_z_loc".to_string());
    v.push("a_loc".to_string());
    v.push("rtr_name_a_loc".to_string());
    v.push("rtr_port".to_string());
    v.push("interf_ip_a_loc".to_string());
    v.push("bw_mbps".to_string());
    v.push("single_isp".to_string());
    v.push("ups_closet".to_string());
    v.push("router_ip".to_string());
    assert(strings_view(v@) =~= column_names());
    v
}

/// The views of a sequence of strings.
pub open spec fn strings_view(v: Seq<String>) -> Seq<Seq<char>> {
    v.map_values(|s: String| s@)
}

impl Circuit {
    /// A copy of this circuit.
    pub fn duplicate(&self) -> (r: Circuit)
        ensures
            r@ == self@,
    {
        Circuit {
            id: self.id.clone(),
            state: self.state.clone(),
            site_name: self.site_name.clone(),
            ckt_id: self.ckt_id.clone(),
            parent: self.parent.clone(),
            link_type: self.link_type.clone(),
            provider: self.provider.clone(),
            z_loc: self.z_loc.clone(),
            rtr_name_z_loc: self.rtr_name_z_loc.clone(),
            to_description: self.to_description.clone(),
            rtr_port_z_loc: self.rtr_port_z_loc.clone(),
            interf_ip_z_loc: self.interf_ip_z_loc.clone(),
            a_loc: self.a_loc.clone(),
            rtr_name_a_loc: self.rtr_name_a_loc.clone(),
            rtr_port: self.rtr_port.clone(),
            interf_ip_a_loc: self.interf_ip_a_loc.clone(),
            bw_mbps: self.bw_mbps.clone(),
            single_isp: self.single_isp.clone(),
            ups_closet: self.ups_closet.clone(),
            router_ip: self.router_ip.clone(),
        }
    }

    /// The attributes in column order.
    pub fn to_fields(&self) -> (r: Vec<String>)
        ensures
            strings_view(r@) == self@,
    {
        let mut v: Vec<String> = Vec::new();
        v.push(self.id.clone());
        v.push(self.state.clone());
        v.push(self.site_name.clone());
        v.push(self.ckt_id.clone());
        v.push(self.parent.clone());
        v.push(self.link_type.clone());
        v.push(self.provider.clone());
        v.push(self.z_loc.clone());
        v.push(self.rtr_name_z_loc.clone());
        v.push(self.to_description.clone());
        v.push(self.rtr_port_z_loc.clone());
        v.push(self.interf_ip_z_loc.clone());
        v.push(self.a_loc.clone());
        v.push(self.rtr_name_a_loc.clone());
        v.push(self.rtr_port.clone());
        v.push(self.interf_ip_a_loc.clone());
        v.push(self.bw_mbps.clone());
        v.push(self.single_isp.clone());
        v.push(self.ups_closet.clone());
        v.push(self.router_ip.clone());
        assert(strings_view(v@) =~= self@);
        v
    }

    /// The circuit whose attributes are the first columns of a row, in column order.
    /// Columns past the last attribute are ignored; a row with too few columns
    /// gives `None`.
    pub fn from_fields(fields: &Vec<String>) -> (r: Option<Circuit>)
        ensures
            r is Some <==> fields.len() >= CIRCUIT_FIELD_COUNT,
            r matches Some(c) ==> c@ == strings_view(fields@).subrange(0, CIRCUIT_FIELD_COUNT as int),
    {
        if fields.len() < CIRCUIT_FIELD_COUNT {
            return None;
        }
        let c = Circuit {
            id: fields[0].clone(),
            state: fields[1].clone(),
            site_name: fields[2].clone(),
            ckt_id: fields[3].clone(),
            parent: fields[4].clone(),
            link_type: fields[5].clone(),
            provider: fields[6].clone(),
            z_loc: fields[7].clone(),
            rtr_name_z_loc: fields[8].clone(),
            to_description: fields[9].clone(),
            rtr_port_z_loc: fields[10].clone(),
            interf_ip_z_loc: fields[11].clone(),
            a_loc: fields[12].clone(),
            rtr_name_a_loc: fields[13].clone(),
            rtr_port: fields[14].clone(),
            interf_ip_a_loc: fields[15].clone(),
            bw_mbps: fields[16].clone(),
            single_isp: fields[17].clone(),
            ups_closet: fields[18].clone(),
            router_ip: fields[19].clone(),
        };
        assert(c@ =~= strings_view(fields@).subrange(0, CIRCUIT_FIELD_COUNT as int));
        Some(c)
    }
}

/// Length of the text form of a ULID.
pub const ULID_TEXT_LEN: usize = 26;

/// Whether a character is a digit of Crockford's base 32 as a ULID is written:
/// `0`-`9` and the upper-case letters but `I`, `L`, `O` and `U`.
pub open spec fn is_crockford_digit(c: char) -> bool {
    ('0' as u32 <= c as u32 <= '9' as u32)
        || ('A' as u32 <= c as u32 <= 'Z' as u32 && c != 'I' && c != 'L' && c != 'O' && c != 'U')
}

/// Whether a text has the form of a ULID: 26 Crockford base-32 digits.
pub open spec fn is_ulid_text(s: Seq<char>) -> bool {
    s.len() == ULID_TEXT_LEN && forall|i: int| 0 <= i < s.len() ==> #[trigger] is_crockford_digit(s[i])
}

/// Relies on `ulid::Ulid::new` and `ulid::Ulid::to_string`: a new ULID drawn from
/// the clock and a random source, written as 26 Crockford base-32 digits
/// (upper case, from the alphabet `0123456789ABCDEFGHJKMNPQRSTVWXYZ`).
#[verifier::external_body]
pub(crate) fn fresh_id() -> (r: String)
    ensures
        is_ulid_text(r@),
{
    ulid::Ulid::new().to_string()
}

/// A circuit as a client submits it for creation: every attribute but the
/// identifier, each of them optional.
#[derive(Debug)]
pub struct CircuitDTO {
    pub state: Option<String>,
    pub site_name: Option<String>,
    pub ckt_id: Option<String>,
    pub parent: Option<String>,
    pub link_type: Option<String>,
    pub provider: Option<String>,
    pub z_loc: Option<String>,
    pub rtr_name_z_loc: Option<String>,
    pub to_description: Option<String>,
    pub rtr_port_z_loc: Option<String>,
    pub interf_ip_z_loc: Option<String>,
    pub a_loc: Option<String>,
    pub rtr_name_a_loc: Option<String>,
    pub rtr_port: Option<String>,
    pub interf_ip_a_loc: Option<String>,
    pub bw_mbps: Option<String>,
    pub single_isp: Option<String>,
    pub ups_closet: Option<String>,
    pub router_ip: Option<String>,
}

/// The text of an optional attribute, empty when it is absent.
pub open spec fn or_empty(o: Option<String>) -> Seq<char> {
    match o {
        Some(s) => s@,
        None => Seq::empty(),
    }
}

fn take_or_empty(o: Option<String>) -> (r: String)
    ensures
        r@ == or_empty(o),
{
    match o {
        Some(s) => s,
        None => String::new(),
    }
}

impl CircuitDTO {
    /// The attributes in column order, without the identifier; absent ones are empty.
    pub open spec fn defaulted(self) -> Seq<Seq<char>> {
        seq![
            or_empty(self.state), or_empty(self.site_name), or_empty(self.ckt_id),
            or_empty(self.parent), or_empty(self.link_type), or_empty(self.provider),
            or_empty(self.z_loc), or_empty(self.rtr_name_z_loc), or_empty(self.to_description),
            or_empty(self.rtr_port_z_loc), or_empty(self.interf_ip_z_loc), or_empty(self.a_loc),
            or_empty(self.rtr_name_a_loc), or_empty(self.rtr_port),
            or_empty(self.interf_ip_a_loc), or_empty(self.bw_mbps), or_empty(self.single_isp),
            or_empty(self.ups_closet), or_empty(self.router_ip),
        ]
    }
}

impl Circuit {
    /// The circuit a creation request describes, under the given identifier.
    pub fn from_dto(value: CircuitDTO, id: String) -> (r: Circuit)
        ensures
            r@ == seq![id@] + value.defaulted(),
    {
        let ghost expected = seq![id@] + value.defaulted();
        let r = Circuit {
            id,
            state: take_or_empty(value.state),
            site_name: take_or_empty(value.site_name),
            ckt_id: take_or_empty(value.ckt_id),
            parent: take_or_empty(value.parent),
            link_type: take_or_empty(value.link_type),
            provider: take_or_empty(value.provider),
            z_loc: take_or_empty(value.z_loc),
            rtr_name_z_loc: take_or_empty(value.rtr_name_z_loc),
            to_description: take_or_empty(value.to_description),
            rtr_port_z_loc: take_or_empty(value.rtr_port_z_loc),
            interf_ip_z_loc: take_or_empty(value.interf_ip_z_loc),
            a_loc: take_or_empty(value.a_loc),
            rtr_name_a_loc: take_or_empty(value.rtr_name_a_loc),
            rtr_port: take_or_empty(value.rtr_port),
            interf_ip_a_loc: take_or_empty(value.interf_ip_a_loc),
            bw_mbps: take_or_empty(value.bw_mbps),
            single_isp: take_or_empty(value.single_isp),
            ups_closet: take_or_empty(value.ups_closet),
            router_ip: take_or_empty(value.router_ip),
        };
        assert(r@ =~= expected);
        r
    }
}

impl From<CircuitDTO> for Circuit {
    /// A new record for a creation request, under a freshly drawn identifier.
    fn from(value: CircuitDTO) -> (r: Circuit)
        ensures
            is_ulid_text(r.id@),
            r@.drop_first() == value.defaulted(),
    {
        let r = Circuit::from_dto(value, fresh_id());
        assert(r@.drop_first() =~= value.defaulted());
        r
    }
}

impl vstd::std_specs::convert::FromSpecImpl<CircuitDTO> for Circuit {
    /// The identifier is drawn afresh on every call, so no single value is promised.
    open spec fn obeys_from_spec() -> bool {
        false
    }

    open spec fn from_spec(v: CircuitDTO) -> Circuit {
        arbitrary()
    }
}

/// The `kind` of the entry that opens an import run and, once the run is over,
/// carries its summary.
pub const FINISH_KIND: &'static str = "finish";

/// The `kind` of an entry that records one failed row.
pub const ERROR_KIND: &'static str = "error";

/// One event in an import's lifecycle.
///
/// The entry that opens a run has kind `FINISH_KIND`; its message is replaced by
/// the summary when the run ends, under the same identifier. Each failed row adds
/// an entry of kind `ERROR_KIND`. All entries of a run share its file name.
#[derive(Clone, Debug)]
pub struct CircuitImportReport {
    pub kind: String,
    pub id: String,
    pub message: String,
    pub file_name: Option<String>,
}

/// What an import report says, as plain text.
pub struct ReportView {
    pub kind: Seq<char>,
    pub id: Seq<char>,
    pub message: Seq<char>,
    pub file_name: Option<Seq<char>>,
}

/// The view of an optional string.
pub open spec fn opt_view(o: Option<String>) -> Option<Seq<char>> {
    match o {
        Some(s) => Some(s@),
        None => None,
    }
}

impl View for CircuitImportReport {
    type V = ReportView;

    open spec fn view(&self) -> ReportView {
        ReportView {
            kind: self.kind@,
            id: self.id@,
            message: self.message@,
            file_name: opt_view(self.file_name),
        }
    }
}

/// A copy of an optional string.
pub fn copy_opt(o: &Option<String>) -> (r: Option<String>)
    ensures
        opt_view(r) == opt_view(*o),
{
    match o {
        Some(s) => Some(s.clone()),
        None => None,
    }
}

impl CircuitImportReport {
    /// A copy of this entry.
    pub fn duplicate(&self) -> (r: CircuitImportReport)
        ensures
            r@ == self@,
    {
        CircuitImportReport {
            kind: self.kind.clone(),
            id: self.id.clone(),
            message: self.message.clone(),
            file_name: copy_opt(&self.file_name),
        }
    }
}

/// What the request handlers share: the store they read and write.
pub struct AppState<T, S> {
    pub data_source: S,
    _marker: std::marker::PhantomData<T>,
}

impl<T, S: Clone> Clone for AppState<T, S> {
    /// A second handle on the same store.
    fn clone(&self) -> (r: AppState<T, S>) {
        AppState { data_source: self.data_source.clone(), _marker: std::marker::PhantomData }
    }
}

impl<T, S> AppState<T, S> {
    /// The store that the handlers share.
    pub closed spec fn store(&self) -> S {
        self.data_source
    }

    pub fn new(data_source: S) -> (r: AppState<T, S>)
        ensures
            r.store() == data_source,
    {
        AppState { data_source, _marker: std::marker::PhantomData }
    }
}

} // verus!
