//! The server's configuration-file grammar: a `server` block holding
//! properties and `vhost` blocks, each vhost holding properties and `route`
//! blocks.

use vstd::prelude::*;
use vstd::string::StringExecFns;
use crate::text::str_eq;

pub mod parser;

verus! {

/// Why a configuration text failed to parse; each payload carries the text
/// at or about the point of failure.
#[derive(Debug, Clone, PartialEq, Eq)]
pub enum Error {
    StringExpectedStartingQuote(String),
    StringExpectedEndingQuote(String),
    ExpectedIdentifier(String),
    InvalidNumber(String),
    ExpectedSemicolon,
    MissingServerBlock,
    InvalidBlockTag(String),
    UnableToMaterializeStructure(String),
}

/// The mathematical value of an [`Error`].
pub enum ErrorModel {
    StringExpectedStartingQuote(Seq<char>),
    StringExpectedEndingQuote(Seq<char>),
    ExpectedIdentifier(Seq<char>),
    InvalidNumber(Seq<char>),
    ExpectedSemicolon,
    MissingServerBlock,
    InvalidBlockTag(Seq<char>),
    UnableToMaterializeStructure(Seq<char>),
}

impl View for Error {
    type V = ErrorModel;

    open spec fn view(&self) -> ErrorModel {
        match self {
            Error::StringExpectedStartingQuote(s) => ErrorModel::StringExpectedStartingQuote(s@),
            Error::StringExpectedEndingQuote(s) => ErrorModel::StringExpectedEndingQuote(s@),
            Error::ExpectedIdentifier(s) => ErrorModel::ExpectedIdentifier(s@),
            Error::InvalidNumber(s) => ErrorModel::InvalidNumber(s@),
            Error::ExpectedSemicolon => ErrorModel::ExpectedSemicolon,
            Error::MissingServerBlock => ErrorModel::MissingServerBlock,
            Error::InvalidBlockTag(s) => ErrorModel::InvalidBlockTag(s@),
            Error::UnableToMaterializeStructure(s) => ErrorModel::UnableToMaterializeStructure(s@),
        }
    }
}

/// A block's name, or a name-valued property pulled out of one.
#[derive(Debug, Clone, PartialEq, Eq)]
pub struct Tag(pub String);

impl View for Tag {
    type V = Seq<char>;

    open spec fn view(&self) -> Seq<char> {
        self.0@
    }
}

impl Tag {
    /// A tag holding the given text.
    pub fn from(s: &str) -> (r: Tag)
        ensures
            r@ == s@,
    {
        Tag(s.to_owned())
    }

    /// The tag a property names: only a string-valued property names one.
    pub fn try_from(p: &Property) -> (r: Result<Tag, Error>)
        ensures
            (match p@.value {
                ValueModel::String(s) => r matches Ok(t) && t@ == s,
                ValueModel::Number(_) => r matches Err(e) && e@ == ErrorModel::InvalidBlockTag(
                    p@.name,
                ),
            }),
    {
        match &p.value {
            Value::String(s) => Ok(Tag(s.clone())),
            Value::Number(_) => Err(Error::InvalidBlockTag(p.name.clone())),
        }
    }
}

/// A property's value: a quoted string or an unsigned number.
#[derive(Debug, Clone, PartialEq, Eq)]
pub enum Value {
    String(String),
    Number(u32),
}

/// The mathematical value of a [`Value`].
pub enum ValueModel {
    String(Seq<char>),
    Number(int),
}

impl View for Value {
    type V = ValueModel;

    open spec fn view(&self) -> ValueModel {
        match self {
            Value::String(s) => ValueModel::String(s@),
            Value::Number(n) => ValueModel::Number(*n as int),
        }
    }
}

/// One named property of a block.
#[derive(Debug, Clone, PartialEq, Eq)]
pub struct Property {
    pub name: String,
    pub value: Value,
}

/// The mathematical value of a [`Property`].
pub struct PropertyModel {
    pub name: Seq<char>,
    pub value: ValueModel,
}

impl View for Property {
    type V = PropertyModel;

    open spec fn view(&self) -> PropertyModel {
        PropertyModel { name: self.name@, value: self.value@ }
    }
}

/// The properties a block holds, in the order they were parsed; a repeated
/// name overrides an earlier one, so lookups read from the end.
pub open spec fn spec_get_property(props: Seq<PropertyModel>, name: Seq<char>) -> Option<
    PropertyModel,
>
    decreases props.len(),
{
    if props.len() == 0 {
        None
    } else if props.last().name == name {
        Some(props.last())
    } else {
        spec_get_property(props.drop_last(), name)
    }
}

/// Looks a property up by name, later entries overriding earlier ones.
pub fn find_property<'a>(props: &'a Vec<Property>, name: &str) -> (r: Option<&'a Property>)
    ensures
        (match r {
            Some(p) => spec_get_property(props@.map_values(|q: Property| q@), name@) == Some(p@),
            None => spec_get_property(props@.map_values(|q: Property| q@), name@) is None,
        }),
{
    let ghost pm = props@.map_values(|q: Property| q@);
    let mut i: usize = props.len();
    proof {
        assert(pm.take(i as int) =~= pm);
    }
    while i > 0
        invariant
            i <= props@.len(),
            pm == props@.map_values(|q: Property| q@),
            spec_get_property(pm, name@) == spec_get_property(pm.take(i as int), name@),
        decreases i,
    {
        let ghost before = pm.take(i as int);
        proof {
            assert(before.last() == pm[i - 1]);
            assert(before.drop_last() =~= pm.take(i - 1));
        }
        i = i - 1;
        let p = &props[i];
        if str_eq(p.name.as_str(), name) {
            return Some(p);
        }
    }
    proof {
        assert(pm.take(0) =~= Seq::<PropertyModel>::empty());
    }
    None
}

/// One parsed block: its tag, its own properties, and its nested blocks.
#[derive(Debug)]
pub struct Block {
    pub tag: Tag,
    pub properties: Vec<Property>,
    pub children: Vec<Block>,
}

/// The mathematical value of a [`Block`].
pub struct BlockModel {
    pub tag: Seq<char>,
    pub properties: Seq<PropertyModel>,
    pub children: Seq<BlockModel>,
}

/// The mathematical value of a block, its nested blocks included.
pub open spec fn block_model(b: Block) -> BlockModel
    decreases b,
    via block_model_decreases
{
    BlockModel {
        tag: b.tag@,
        properties: b.properties@.map_values(|p: Property| p@),
        children: blocks_model(b.children@),
    }
}

/// The mathematical values of a sequence of blocks, in order.
pub open spec fn blocks_model(bs: Seq<Block>) -> Seq<BlockModel>
    decreases bs,
    via blocks_model_decreases
{
    if bs.len() == 0 {
        Seq::empty()
    } else {
        seq![block_model(bs[0])] + blocks_model(bs.skip(1))
    }
}

#[via_fn]
proof fn block_model_decreases(b: Block) {
    assert(decreases_to!(b => b.children));
    assert(decreases_to!(b.children => b.children@));
}

#[via_fn]
proof fn blocks_model_decreases(bs: Seq<Block>) {
    if bs.len() > 0 {
        assert(decreases_to!(bs => bs[0]));
        assert(bs.skip(1) == bs.subrange(1, bs.len() as int));
        assert(decreases_to!(bs => bs.subrange(1, bs.len() as int)));
    }
}

impl View for Block {
    type V = BlockModel;

    open spec fn view(&self) -> BlockModel {
        block_model(*self)
    }
}

/// The top-level block: the server's own properties and its virtual hosts.
#[derive(Debug, Clone, PartialEq, Eq)]
pub struct Server {
    pub properties: Vec<Property>,
    pub vhosts: Vec<VHost>,
}

/// The mathematical value of a [`Server`].
pub struct ServerModel {
    pub properties: Seq<PropertyModel>,
    pub vhosts: Seq<VHostModel>,
}

impl View for Server {
    type V = ServerModel;

    open spec fn view(&self) -> ServerModel {
        ServerModel {
            properties: self.properties@.map_values(|p: Property| p@),
            vhosts: self.vhosts@.map_values(|v: VHost| v@),
        }
    }
}

/// One virtual host: its host name, its properties, and its routes.
#[derive(Debug, Clone, PartialEq, Eq)]
pub struct VHost {
    pub vhost: Tag,
    pub properties: Vec<Property>,
    pub routes: Vec<Route>,
}

/// The mathematical value of a [`VHost`].
pub struct VHostModel {
    pub vhost: Seq<char>,
    pub properties: Seq<PropertyModel>,
    pub routes: Seq<RouteModel>,
}

impl View for VHost {
    type V = VHostModel;

    open spec fn view(&self) -> VHostModel {
        VHostModel {
            vhost: self.vhost@,
            properties: self.properties@.map_values(|p: Property| p@),
            routes: self.routes@.map_values(|r: Route| r@),
        }
    }
}

/// One route of a virtual host: its path and its properties.
#[derive(Debug, Clone, PartialEq, Eq)]
pub struct Route {
    pub path: Tag,
    pub properties: Vec<Property>,
}

/// The mathematical value of a [`Route`].
pub struct RouteModel {
    pub path: Seq<char>,
    pub properties: Seq<PropertyModel>,
}

impl View for Route {
    type V = RouteModel;

    open spec fn view(&self) -> RouteModel {
        RouteModel { path: self.path@, properties: self.properties@.map_values(|p: Property| p@) }
    }
}

/// A whole parsed configuration.
#[derive(Debug, Clone, PartialEq, Eq)]
pub struct Config {
    pub server: Server,
}

/// The mathematical value of a [`Config`].
pub struct ConfigModel {
    pub server: ServerModel,
}

impl View for Config {
    type V = ConfigModel;

    open spec fn view(&self) -> ConfigModel {
        ConfigModel { server: self.server@ }
    }
}


/// What the `vhost` children of the server block yield: each is
/// materialized in order, other children are skipped, and the first failure
/// aborts the whole conversion.
pub open spec fn spec_vhosts_of(bs: Seq<BlockModel>) -> Result<Seq<VHostModel>, ErrorModel>
    decreases bs.len(),
{
    if bs.len() == 0 {
        Ok(Seq::empty())
    } else if bs[0].tag == "vhost"@ {
        match spec_vhost_from_block(bs[0]) {
            Err(e) => Err(e),
            Ok(v) => match spec_vhosts_of(bs.skip(1)) {
                Err(e) => Err(e),
                Ok(vs) => Ok(seq![v] + vs),
            },
        }
    } else {
        spec_vhosts_of(bs.skip(1))
    }
}

/// What the `route` children of a vhost block yield, as
/// [`spec_vhosts_of`] does for vhosts.
pub open spec fn spec_routes_of(bs: Seq<BlockModel>) -> Result<Seq<RouteModel>, ErrorModel>
    decreases bs.len(),
{
    if bs.len() == 0 {
        Ok(Seq::empty())
    } else if bs[0].tag == "route"@ {
        match spec_route_from_block(bs[0]) {
            Err(e) => Err(e),
            Ok(v) => match spec_routes_of(bs.skip(1)) {
                Err(e) => Err(e),
                Ok(vs) => Ok(seq![v] + vs),
            },
        }
    } else {
        spec_routes_of(bs.skip(1))
    }
}

/// What a `route` block materializes to: it must carry a string-valued
/// `path` property.
pub open spec fn spec_route_from_block(b: BlockModel) -> Result<RouteModel, ErrorModel> {
    if b.tag != "route"@ {
        Err(ErrorModel::InvalidBlockTag("Expected 'route', got '"@ + b.tag + "'"@))
    } else {
        match spec_get_property(b.properties, "path"@) {
            None => Err(ErrorModel::UnableToMaterializeStructure("missing 'path'"@)),
            Some(p) => match p.value {
                ValueModel::String(path) => Ok(
                    RouteModel { path, properties: b.properties },
                ),
                ValueModel::Number(_) => Err(ErrorModel::InvalidBlockTag(p.name)),
            },
        }
    }
}

/// What a `vhost` block materializes to: it must carry a string-valued
/// `hostname` property, and its `route` children become its routes.
pub open spec fn spec_vhost_from_block(b: BlockModel) -> Result<VHostModel, ErrorModel> {
    if b.tag != "vhost"@ {
        Err(ErrorModel::InvalidBlockTag("Expected 'vhost', got '"@ + b.tag + "'"@))
    } else {
        match spec_get_property(b.properties, "hostname"@) {
            None => Err(
                ErrorModel::UnableToMaterializeStructure("Missing 'hostname' property"@),
            ),
            Some(p) => match p.value {
                ValueModel::String(hn) => match spec_routes_of(b.children) {
                    Err(e) => Err(e),
                    Ok(rs) => Ok(VHostModel { vhost: hn, properties: b.properties, routes: rs }),
                },
                ValueModel::Number(_) => Err(ErrorModel::InvalidBlockTag(p.name)),
            },
        }
    }
}

/// What the server block materializes to: its own properties and its
/// `vhost` children.
pub open spec fn spec_server_from_block(b: BlockModel) -> Result<ServerModel, ErrorModel> {
    match spec_vhosts_of(b.children) {
        Err(e) => Err(e),
        Ok(vs) => Ok(ServerModel { properties: b.properties, vhosts: vs }),
    }
}

impl Route {
    /// Materializes a `route` block, as [`spec_route_from_block`] says.
    pub fn try_from(b: Block) -> (r: Result<Route, Error>)
        ensures
            (match spec_route_from_block(b@) {
                Ok(m) => r matches Ok(x) && x@ == m,
                Err(e) => r matches Err(x) && x@ == e,
            }),
    {
        if !str_eq(b.tag.0.as_str(), "route") {
            return Err(
                Error::InvalidBlockTag(
                    "Expected 'route', got '".to_owned().concat(b.tag.0.as_str()).concat("'"),
                ),
            );
        }
        let path = match find_property(&b.properties, "path") {
            None => {
                return Err(
                    Error::UnableToMaterializeStructure("missing 'path'".to_owned()),
                );
            },
            Some(p) => match Tag::try_from(p) {
                Ok(t) => t,
                Err(e) => {
                    return Err(e);
                },
            },
        };
        let Block { tag: _t, properties, children: _c } = b;
        Ok(Route { path, properties })
    }
}

impl VHost {
    /// Materializes a `vhost` block, as [`spec_vhost_from_block`] says.
    pub fn try_from(b: Block) -> (r: Result<VHost, Error>)
        ensures
            (match spec_vhost_from_block(b@) {
                Ok(m) => r matches Ok(x) && x@ == m,
                Err(e) => r matches Err(x) && x@ == e,
            }),
    {
        if !str_eq(b.tag.0.as_str(), "vhost") {
            return Err(
                Error::InvalidBlockTag(
                    "Expected 'vhost', got '".to_owned().concat(b.tag.0.as_str()).concat("'"),
                ),
            );
        }
        let vhost = match find_property(&b.properties, "hostname") {
            None => {
                return Err(
                    Error::UnableToMaterializeStructure(
                        "Missing 'hostname' property".to_owned(),
                    ),
                );
            },
            Some(p) => match Tag::try_from(p) {
                Ok(t) => t,
                Err(e) => {
                    return Err(e);
                },
            },
        };
        let Block { tag: _t, properties, children } = b;
        let routes = match routes_of(children) {
            Ok(rs) => rs,
            Err(e) => {
                return Err(e);
            },
        };
        Ok(VHost { vhost, properties, routes })
    }
}

impl Server {
    /// Materializes the server block, as [`spec_server_from_block`] says.
    pub fn try_from(block: Block) -> (r: Result<Server, Error>)
        ensures
            (match spec_server_from_block(block@) {
                Ok(m) => r matches Ok(x) && x@ == m,
                Err(e) => r matches Err(x) && x@ == e,
            }),
    {
        let Block { tag: _t, properties, children } = block;
        match vhosts_of(children) {
            Ok(vhosts) => Ok(Server { properties, vhosts }),
            Err(e) => Err(e),
        }
    }
}

/// Materializes the `vhost` children among `children`, in order, as
/// [`spec_vhosts_of`] says.
fn vhosts_of(children: Vec<Block>) -> (r: Result<Vec<VHost>, Error>)
    ensures
        (match spec_vhosts_of(blocks_model(children@)) {
            Ok(vs) => r matches Ok(v) && v@.map_values(|x: VHost| x@) == vs,
            Err(e) => r matches Err(x) && x@ == e,
        }),
{
    let ghost whole = spec_vhosts_of(blocks_model(children@));
    let mut rest = children;
    let mut out: Vec<VHost> = Vec::new();
    proof {
        assert(out@.map_values(|x: VHost| x@) =~= Seq::<VHostModel>::empty());
        match spec_vhosts_of(blocks_model(rest@)) {
            Ok(vs) => {
                assert(Seq::<VHostModel>::empty() + vs =~= vs);
            },
            Err(_) => {},
        }
    }
    while rest.len() > 0
        invariant
            whole == spec_vhosts_of(blocks_model(children@)),
            (match spec_vhosts_of(blocks_model(rest@)) {
                Ok(vs) => whole == Ok::<Seq<VHostModel>, ErrorModel>(
                    out@.map_values(|x: VHost| x@) + vs,
                ),
                Err(e) => whole == Err::<Seq<VHostModel>, ErrorModel>(e),
            }),
        decreases rest@.len(),
    {
        let ghost pre = out@.map_values(|x: VHost| x@);
        let ghost rv = rest@;
        let ghost bm = blocks_model(rest@);
        let b = rest.remove(0);
        proof {
            assert(rest@ =~= rv.skip(1));
            assert(bm[0] == block_model(b));
            assert(bm.skip(1) =~= blocks_model(rest@));
        }
        if str_eq(b.tag.0.as_str(), "vhost") {
            match VHost::try_from(b) {
                Ok(v) => {
                    out.push(v);
                    proof {
                        assert(out@.map_values(|x: VHost| x@) =~= pre.push(v@));
                        match spec_vhosts_of(blocks_model(rest@)) {
                            Ok(vs) => {
                                assert(pre + (seq![v@] + vs) =~= pre.push(v@) + vs);
                            },
                            Err(_) => {},
                        }
                    }
                },
                Err(e) => {
                    return Err(e);
                },
            }
        }
    }
    proof {
        assert(blocks_model(rest@) =~= Seq::<BlockModel>::empty());
        assert(out@.map_values(|x: VHost| x@) + Seq::<VHostModel>::empty() =~= out@.map_values(
            |x: VHost| x@,
        ));
    }
    Ok(out)
}

/// Materializes the `route` children among `children`, in order, as
/// [`spec_routes_of`] says.
fn routes_of(children: Vec<Block>) -> (r: Result<Vec<Route>, Error>)
    ensures
        (match spec_routes_of(blocks_model(children@)) {
            Ok(vs) => r matches Ok(v) && v@.map_values(|x: Route| x@) == vs,
            Err(e) => r matches Err(x) && x@ == e,
        }),
{
    let ghost whole = spec_routes_of(blocks_model(children@));
    let mut rest = children;
    let mut out: Vec<Route> = Vec::new();
    proof {
        assert(out@.map_values(|x: Route| x@) =~= Seq::<RouteModel>::empty());
        match spec_routes_of(blocks_model(rest@)) {
            Ok(vs) => {
                assert(Seq::<RouteModel>::empty() + vs =~= vs);
            },
            Err(_) => {},
        }
    }
    while rest.len() > 0
        invariant
            whole == spec_routes_of(blocks_model(children@)),
            (match spec_routes_of(blocks_model(rest@)) {
                Ok(vs) => whole == Ok::<Seq<RouteModel>, ErrorModel>(
                    out@.map_values(|x: Route| x@) + vs,
                ),
                Err(e) => whole == Err::<Seq<RouteModel>, ErrorModel>(e),
            }),
        decreases rest@.len(),
    {
        let ghost pre = out@.map_values(|x: Route| x@);
        let ghost rv = rest@;
        let ghost bm = blocks_model(rest@);
        let b = rest.remove(0);
        proof {
            assert(rest@ =~= rv.skip(1));
            assert(bm[0] == block_model(b));
            assert(bm.skip(1) =~= blocks_model(rest@));
        }
        if str_eq(b.tag.0.as_str(), "route") {
            match Route::try_from(b) {
                Ok(v) => {
                    out.push(v);
                    proof {
                        assert(out@.map_values(|x: Route| x@) =~= pre.push(v@));
                        match spec_routes_of(blocks_model(rest@)) {
                            Ok(vs) => {
                                assert(pre + (seq![v@] + vs) =~= pre.push(v@) + vs);
                            },
                            Err(_) => {},
                        }
                    }
                },
                Err(e) => {
                    return Err(e);
                },
            }
        }
    }
    proof {
        assert(blocks_model(rest@) =~= Seq::<BlockModel>::empty());
        assert(out@.map_values(|x: Route| x@) + Seq::<RouteModel>::empty() =~= out@.map_values(
            |x: Route| x@,
        ));
    }
    Ok(out)
}

/// Reads what a block holds through a uniform lookup interface.
pub trait GetProperty {
    /// The properties the lookups read, as a sequence with later entries
    /// overriding earlier ones.
    spec fn props_model(&self) -> Seq<PropertyModel>;

    /// The property of that name, if any.
    fn get_property(&self, name: &str) -> (r: Option<&Property>)
        ensures
            (match r {
                Some(p) => spec_get_property(self.props_model(), name@) == Some(p@),
                None => spec_get_property(self.props_model(), name@) is None,
            }),
    ;

    /// The string value of the property of that name, if it has one.
    fn get_property_string(&self, name: &str) -> (r: Option<&str>)
        ensures
            (match spec_get_property(self.props_model(), name@) {
                Some(p) => match p.value {
                    ValueModel::String(s) => r matches Some(x) && x@ == s,
                    ValueModel::Number(_) => r is None,
                },
                None => r is None,
            }),
    {
        match self.get_property(name) {
            Some(p) => match &p.value {
                Value::String(s) => Some(s.as_str()),
                Value::Number(_) => None,
            },
            None => None,
        }
    }

    /// The numeric value of the property of that name, if it has one.
    fn get_property_number(&self, name: &str) -> (r: Option<u32>)
        ensures
            (match spec_get_property(self.props_model(), name@) {
                Some(p) => match p.value {
                    ValueModel::Number(n) => r matches Some(x) && x as int == n,
                    ValueModel::String(_) => r is None,
                },
                None => r is None,
            }),
    {
        match self.get_property(name) {
            Some(p) => match &p.value {
                Value::Number(n) => Some(*n),
                Value::String(_) => None,
            },
            None => None,
        }
    }
}

impl GetProperty for Server {
    open spec fn props_model(&self) -> Seq<PropertyModel> {
        self@.properties
    }

    fn get_property(&self, name: &str) -> (r: Option<&Property>) {
        find_property(&self.properties, name)
    }
}

impl GetProperty for VHost {
    open spec fn props_model(&self) -> Seq<PropertyModel> {
        self@.properties
    }

    fn get_property(&self, name: &str) -> (r: Option<&Property>) {
        find_property(&self.properties, name)
    }
}

impl GetProperty for Route {
    open spec fn props_model(&self) -> Seq<PropertyModel> {
        self@.properties
    }

    fn get_property(&self, name: &str) -> (r: Option<&Property>) {
        find_property(&self.properties, name)
    }
}

impl GetProperty for Config {
    open spec fn props_model(&self) -> Seq<PropertyModel> {
        self@.server.properties
    }

    fn get_property(&self, name: &str) -> (r: Option<&Property>) {
        find_property(&self.server.properties, name)
    }
}

/// Parses a whole configuration text, as [`parser::spec_config`] composed
/// with the block materializations says: the server block with its vhosts
/// and routes, or the first error the grammar or the materialization finds.
pub fn read_and_parse_config(conf_str: &str) -> (r: Result<Config, Error>)
    ensures
        (match parser::spec_config(conf_str@) {
            Ok((_rest, cm)) => r matches Ok(c) && c@ == cm,
            Err(e) => r matches Err(x) && x@ == e,
        }),
{
    match parser::config(conf_str) {
        Ok((_i, c)) => Ok(c),
        Err(e) => Err(e),
    }
}

} // verus!
