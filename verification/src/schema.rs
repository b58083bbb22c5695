//! Schemas and validation of credential data against them.

use vstd::prelude::*;

verus! {

use crate::crypto::{is_rfc3339, rfc3339_ok};
use crate::errors::AppError;
use crate::models::{AttributeDataType, Schema, SchemaAttribute};
use crate::requests::{CreateSchemaRequest, ValidateCredentialRequest, ValidationResult};
use crate::value::{
    ClaimEntry, ClaimValue, ValueV, entries_v, lemma_entries_v, spec_has_key, str_eq,
};

/// Whether a value fits an attribute's declared kind; a date is a string
/// the date parser accepts.
pub open spec fn attr_type_ok(dt: AttributeDataType, v: ValueV) -> bool {
    match dt {
        AttributeDataType::String => v is Str,
        AttributeDataType::Number => v is Int,
        AttributeDataType::Boolean => v is Bool,
        AttributeDataType::Date => v matches ValueV::Str(s) && rfc3339_ok(s),
        AttributeDataType::Object => v is Obj,
        AttributeDataType::Array => v is Arr,
    }
}

/// The first schema attribute with the given name.
pub open spec fn spec_find_attr(attrs: Seq<SchemaAttribute>, name: Seq<char>) -> Option<
    SchemaAttribute,
>
    decreases attrs.len(),
{
    if attrs.len() == 0 {
        None
    } else if attrs[0].name@ == name {
        Some(attrs[0])
    } else {
        spec_find_attr(attrs.drop_first(), name)
    }
}

/// Credential data fits a schema iff every required attribute is present,
/// and every present attribute is declared and has the declared kind.
pub open spec fn spec_schema_valid(
    attrs: Seq<SchemaAttribute>,
    data: Seq<(Seq<char>, ValueV)>,
) -> bool {
    &&& (forall|i: int|
        0 <= i < attrs.len() && (#[trigger] attrs[i]).required ==> spec_has_key(
            data,
            attrs[i].name@,
        ))
    &&& (forall|j: int|
        0 <= j < data.len() ==> match spec_find_attr(attrs, (#[trigger] data[j]).0) {
            Some(a) => attr_type_ok(a.data_type, data[j].1),
            None => false,
        })
}

/// Finds a schema attribute by name.
fn find_attr<'a>(attrs: &'a Vec<SchemaAttribute>, name: &str) -> (r: Option<&'a SchemaAttribute>)
    ensures
        match r {
            Some(a) => spec_find_attr(attrs@, name@) == Some(*a),
            None => spec_find_attr(attrs@, name@) is None,
        },
{
    let n = attrs.len();
    let mut i: usize = 0;
    proof {
        assert(attrs@.skip(0) =~= attrs@);
    }
    while i < n
        invariant
            0 <= i <= n,
            n == attrs@.len(),
            spec_find_attr(attrs@.skip(i as int), name@) == spec_find_attr(attrs@, name@),
        decreases n - i,
    {
        proof {
            assert(attrs@.skip(i as int)[0] == attrs@[i as int]);
        }
        if str_eq(attrs[i].name.as_str(), name) {
            return Some(&attrs[i]);
        }
        proof {
            assert(attrs@.skip(i as int).drop_first() =~= attrs@.skip(i as int + 1));
        }
        i += 1;
    }
    proof {
        assert(attrs@.skip(n as int) =~= Seq::<SchemaAttribute>::empty());
    }
    None
}

/// Whether a value fits an attribute's declared kind.
fn check_attr_type(dt: AttributeDataType, v: &ClaimValue) -> (r: bool)
    ensures
        r == attr_type_ok(dt, v@),
{
    match dt {
        AttributeDataType::String => match v {
            ClaimValue::Str(_) => true,
            _ => false,
        },
        AttributeDataType::Number => match v {
            ClaimValue::Int(_) => true,
            _ => false,
        },
        AttributeDataType::Boolean => match v {
            ClaimValue::Bool(_) => true,
            _ => false,
        },
        AttributeDataType::Date => match v {
            ClaimValue::Str(s) => is_rfc3339(s.as_str()),
            _ => false,
        },
        AttributeDataType::Object => match v {
            ClaimValue::Obj(_) => true,
            _ => false,
        },
        AttributeDataType::Array => match v {
            ClaimValue::Arr(_) => true,
            _ => false,
        },
    }
}

/// Validate credential data against a schema: report every missing
/// required attribute, every undeclared attribute, and every kind
/// mismatch.
pub fn validate_credential_data(schema: &Schema, credential_data: &Vec<ClaimEntry>) -> (r:
    ValidationResult)
    ensures
        r.is_valid == spec_schema_valid(schema.attributes@, entries_v(credential_data@)),
        r.is_valid <==> r.errors@.len() == 0,
{
    let ghost data = entries_v(credential_data@);
    proof {
        lemma_entries_v(credential_data@);
    }
    let mut errors: Vec<String> = Vec::new();
    let mut required_ok = true;
    let an = schema.attributes.len();
    let mut i: usize = 0;
    while i < an
        invariant
            0 <= i <= an,
            an == schema.attributes@.len(),
            data == entries_v(credential_data@),
            required_ok == (forall|k: int|
                0 <= k < i && (#[trigger] schema.attributes@[k]).required ==> spec_has_key(
                    data,
                    schema.attributes@[k].name@,
                )),
            required_ok <==> errors@.len() == 0,
        decreases an - i,
    {
        if schema.attributes[i].required {
            match crate::value::lookup_entry(credential_data, schema.attributes[i].name.as_str()) {
                Some(_) => {},
                None => {
                    errors.push("required attribute is missing".to_owned());
                    required_ok = false;
                },
            }
        }
        i += 1;
    }
    let mut typed_ok = true;
    let dn = credential_data.len();
    let mut j: usize = 0;
    while j < dn
        invariant
            0 <= j <= dn,
            dn == credential_data@.len(),
            data == entries_v(credential_data@),
            data.len() == dn,
            forall|k: int|
                0 <= k < dn ==> data[k] == ((#[trigger] credential_data@[k]).key@,
                credential_data@[k].value@),
            typed_ok == (forall|k: int|
                0 <= k < j ==> match spec_find_attr(schema.attributes@, (#[trigger] data[k]).0) {
                    Some(a) => attr_type_ok(a.data_type, data[k].1),
                    None => false,
                }),
            (required_ok && typed_ok) <==> errors@.len() == 0,
        decreases dn - j,
    {
        match find_attr(&schema.attributes, credential_data[j].key.as_str()) {
            Some(attr) => {
                if !check_attr_type(attr.data_type, &credential_data[j].value) {
                    errors.push("attribute does not have the declared kind".to_owned());
                    typed_ok = false;
                }
            },
            None => {
                errors.push("attribute is not declared in the schema".to_owned());
                typed_ok = false;
            },
        }
        j += 1;
    }
    let is_valid = required_ok && typed_ok;
    ValidationResult { is_valid, errors }
}

/// The schema component: the registered schemas.
pub struct SchemaService {
    pub schemas: Vec<Schema>,
}

/// The first schema with the given identifier.
pub open spec fn spec_find_schema(schemas: Seq<Schema>, id: Seq<char>) -> Option<int> {
    spec_find_schema_from(schemas, id, 0)
}

/// The first schema with the identifier, at or after `from`.
pub open spec fn spec_find_schema_from(schemas: Seq<Schema>, id: Seq<char>, from: int) -> Option<
    int,
>
    decreases schemas.len() - from,
{
    if 0 <= from < schemas.len() {
        if schemas[from].id@ == id {
            Some(from)
        } else {
            spec_find_schema_from(schemas, id, from + 1)
        }
    } else {
        None
    }
}

impl SchemaService {
    /// A service with no schemas yet.
    pub fn new() -> (r: SchemaService)
        ensures
            r.schemas@.len() == 0,
    {
        SchemaService { schemas: Vec::new() }
    }

    /// Register a schema under `issuer:name:version`.
    pub fn create_schema(&mut self, issuer_did: &str, request: CreateSchemaRequest, now: i64) -> (r:
        Result<Schema, AppError>)
        ensures
            r matches Ok(s) ==> {
                &&& s.issuer_did@ == issuer_did@
                &&& s.name@ == request.name@
                &&& s.version@ == request.version@
                &&& s.created_at == now
                &&& final(self).schemas@.len() == old(self).schemas@.len() + 1
                &&& final(self).schemas@.last().id@ == s.id@
            },
            r is Ok,
    {
        let mut id = issuer_did.to_owned();
        id.append(":");
        id.append(request.name.as_str());
        id.append(":");
        id.append(request.version.as_str());
        let mut attributes: Vec<SchemaAttribute> = Vec::new();
        let an = request.attributes.len();
        let mut i: usize = 0;
        while i < an
            invariant
                0 <= i <= an,
                an == request.attributes@.len(),
            decreases an - i,
        {
            attributes.push(
                SchemaAttribute {
                    name: request.attributes[i].name.clone(),
                    data_type: request.attributes[i].data_type,
                    description: request.attributes[i].description.clone(),
                    required: request.attributes[i].required,
                },
            );
            i += 1;
        }
        let schema = Schema {
            id: id.clone(),
            name: request.name,
            version: request.version,
            issuer_did: issuer_did.to_owned(),
            attributes,
            created_at: now,
            updated_at: now,
        };
        let copy = copy_schema(&schema);
        self.schemas.push(copy);
        Ok(schema)
    }

    /// Validate credential data against a registered schema.
    pub fn validate_credential(&self, request: &ValidateCredentialRequest) -> (r: Result<
        ValidationResult,
        AppError,
    >)
        ensures
            spec_find_schema(self.schemas@, request.schema_id@) is None ==> (r matches Err(
                AppError::NotFound(_),
            )),
            r matches Ok(out) ==> (spec_find_schema(self.schemas@, request.schema_id@)
                matches Some(i) && out.is_valid == spec_schema_valid(
                self.schemas@[i].attributes@,
                entries_v(request.credential_data@),
            )),
    {
        let n = self.schemas.len();
        let mut i: usize = 0;
        while i < n
            invariant
                0 <= i <= n,
                n == self.schemas@.len(),
                spec_find_schema_from(self.schemas@, request.schema_id@, i as int)
                    == spec_find_schema(self.schemas@, request.schema_id@),
            decreases n - i,
        {
            if str_eq(self.schemas[i].id.as_str(), request.schema_id.as_str()) {
                return Ok(validate_credential_data(&self.schemas[i], &request.credential_data));
            }
            i += 1;
        }
        Err(AppError::NotFound("schema not found".to_owned()))
    }
}

/// Copies a schema record.
fn copy_schema(s: &Schema) -> (r: Schema)
    ensures
        r.id@ == s.id@,
        r.issuer_did@ == s.issuer_did@,
{
    let mut attributes: Vec<SchemaAttribute> = Vec::new();
    let an = s.attributes.len();
    let mut i: usize = 0;
    while i < an
        invariant
            0 <= i <= an,
            an == s.attributes@.len(),
        decreases an - i,
    {
        attributes.push(
            SchemaAttribute {
                name: s.attributes[i].name.clone(),
                data_type: s.attributes[i].data_type,
                description: s.attributes[i].description.clone(),
                required: s.attributes[i].required,
            },
        );
        i += 1;
    }
    Schema {
        id: s.id.clone(),
        name: s.name.clone(),
        version: s.version.clone(),
        issuer_did: s.issuer_did.clone(),
        attributes,
        created_at: s.created_at,
        updated_at: s.updated_at,
    }
}

} // verus!
