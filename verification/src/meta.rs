//! The registry data model: the record registered for each UDF, the registry
//! document, and the append operation generated registrars call.

use vstd::prelude::*;

verus! {

/// An Arrow data type: a type name plus the optional attributes that only
/// some types carry (element type for lists, precision and scale for
/// decimals, unit for timestamps). All-optional fields default to absent.
#[derive(Debug, PartialEq)]
pub struct DataType {
    pub name: String,
    pub value_type: Option<Box<DataType>>,
    pub precision: Option<i32>,
    pub scale: Option<i32>,
    pub unit: Option<String>,
}

/// The metadata record registered for one UDF.
#[derive(Debug, PartialEq)]
pub struct UdfMetaData {
    pub name: String,
    pub aliases: Vec<String>,
    pub param_types: Vec<DataType>,
    pub return_type: DataType,
    pub pc_name: String,
    pub result_nullable: String,
    pub can_return_errors: bool,
    pub needs_context: bool,
}

/// The full registry document: a version string plus the registered records.
#[derive(Debug, PartialEq)]
pub struct UdfRegistry {
    pub version: String,
    pub functions: Vec<UdfMetaData>,
}

fn clone_data_type(d: &DataType) -> (r: DataType)
    ensures
        r == *d,
    decreases *d,
{
    DataType {
        name: d.name.clone(),
        value_type: match &d.value_type {
            Some(b) => Some(Box::new(clone_data_type(&**b))),
            None => None,
        },
        precision: d.precision,
        scale: d.scale,
        unit: match &d.unit {
            Some(s) => Some(s.clone()),
            None => None,
        },
    }
}

impl Clone for DataType {
    fn clone(&self) -> (r: Self)
        ensures
            r == *self,
    {
        clone_data_type(self)
    }
}

impl Default for DataType {
    /// A `DataType` with an empty type name and every optional attribute
    /// absent.
    fn default() -> (d: Self)
        ensures
            d.name@ == Seq::<char>::empty(),
            d.value_type is None,
            d.precision is None,
            d.scale is None,
            d.unit is None,
    {
        DataType {
            name: String::new(),
            value_type: None,
            precision: None,
            scale: None,
            unit: None,
        }
    }
}

impl Clone for UdfMetaData {
    fn clone(&self) -> (r: Self)
        ensures
            r.name == self.name,
            r.aliases@ == self.aliases@,
            r.param_types@ == self.param_types@,
            r.return_type == self.return_type,
            r.pc_name == self.pc_name,
            r.result_nullable == self.result_nullable,
            r.can_return_errors == self.can_return_errors,
            r.needs_context == self.needs_context,
    {
        let mut aliases: Vec<String> = Vec::new();
        let mut i: usize = 0;
        while i < self.aliases.len()
            invariant
                i <= self.aliases.len(),
                aliases@ == self.aliases@.take(i as int),
            decreases self.aliases.len() - i,
        {
            aliases.push(self.aliases[i].clone());
            i = i + 1;
            proof {
                assert(aliases@ =~= self.aliases@.take(i as int));
            }
        }
        let mut param_types: Vec<DataType> = Vec::new();
        let mut j: usize = 0;
        while j < self.param_types.len()
            invariant
                j <= self.param_types.len(),
                param_types@ == self.param_types@.take(j as int),
            decreases self.param_types.len() - j,
        {
            param_types.push(self.param_types[j].clone());
            j = j + 1;
            proof {
                assert(param_types@ =~= self.param_types@.take(j as int));
            }
        }
        proof {
            assert(aliases@ =~= self.aliases@);
            assert(param_types@ =~= self.param_types@);
        }
        UdfMetaData {
            name: self.name.clone(),
            aliases,
            param_types,
            return_type: self.return_type.clone(),
            pc_name: self.pc_name.clone(),
            result_nullable: self.result_nullable.clone(),
            can_return_errors: self.can_return_errors,
            needs_context: self.needs_context,
        }
    }
}

impl Default for UdfMetaData {
    /// An empty record whose nullability policy is the default `if_null`.
    fn default() -> (m: Self)
        ensures
            m.name@ == Seq::<char>::empty(),
            m.aliases@ == Seq::<String>::empty(),
            m.param_types@ == Seq::<DataType>::empty(),
            m.return_type.name@ == Seq::<char>::empty(),
            m.return_type.value_type is None,
            m.return_type.precision is None,
            m.return_type.scale is None,
            m.return_type.unit is None,
            m.pc_name@ == Seq::<char>::empty(),
            m.result_nullable@ == "if_null"@,
            !m.can_return_errors,
            !m.needs_context,
    {
        UdfMetaData {
            name: String::new(),
            aliases: Vec::new(),
            param_types: Vec::new(),
            return_type: DataType::default(),
            pc_name: String::new(),
            result_nullable: "if_null".to_owned(),
            can_return_errors: false,
            needs_context: false,
        }
    }
}

/// Append one record to a registry list. The process-wide list itself lives
/// with the caller, which guards it as its runtime requires.
pub fn register_udf(registry: &mut Vec<UdfMetaData>, udf_meta_data: UdfMetaData)
    ensures
        final(registry)@ == old(registry)@.push(udf_meta_data),
{
    registry.push(udf_meta_data);
}

} // verus!
