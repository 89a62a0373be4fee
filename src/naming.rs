use vstd::prelude::*;
use vstd::string::StringExecFns;

verus! {

pub open spec fn opt_view(s: Option<&str>) -> Option<Seq<char>> {
    match s {
        Some(c) => Some(c@),
        None => None,
    }
}

/// The name of an input type nested in a container type: `<base>From<container>`.
pub open spec fn data_type_name_spec(base: Seq<char>, container: Option<Seq<char>>) -> Seq<char> {
    match container {
        Some(c) => base + "From"@ + c,
        None => base,
    }
}

fn data_type_name(base_name: String, container_type: Option<&str>) -> (r: String)
    ensures
        r@ == data_type_name_spec(base_name@, opt_view(container_type)),
{
    match container_type {
        Some(container) => {
            let mut name = base_name;
            name.append("From");
            name.append(container);
            name
        },
        None => base_name,
    }
}

/// The name of the creation input type of a model type, nested in a container type if any.
pub fn create_data_type_name(model_type_name: &str, container_type: Option<&str>) -> (r: String)
    ensures
        r@ == data_type_name_spec(model_type_name@ + "CreationInput"@, opt_view(container_type)),
{
    let mut base = String::from_str(model_type_name);
    base.append("CreationInput");
    data_type_name(base, container_type)
}

/// The name of the update input type of a model type, nested in a container type if any.
pub fn update_data_type_name(model_type_name: &str, container_type: Option<&str>) -> (r: String)
    ensures
        r@ == data_type_name_spec(model_type_name@ + "UpdateInput"@, opt_view(container_type)),
{
    let mut base = String::from_str(model_type_name);
    base.append("UpdateInput");
    data_type_name(base, container_type)
}

/// The name of the order-by parameter type of a model type: all primitive types share
/// `Ordering`, a composite type has `<name>Ordering`.
pub fn get_parameter_type_name(model_type_name: &str, is_primitive: bool) -> (r: String)
    ensures
        is_primitive ==> r@ == "Ordering"@,
        !is_primitive ==> r@ == model_type_name@ + "Ordering"@,
{
    if is_primitive {
        String::from_str("Ordering")
    } else {
        let mut name = String::from_str(model_type_name);
        name.append("Ordering");
        name
    }
}

} // verus!
