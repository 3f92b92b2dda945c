use vstd::prelude::*;

verus! {

/// One addressable node endpoint in the target fleet. Instances are built
/// once at fleet-discovery time and never mutated afterwards.
#[derive(Clone, Debug)]
pub struct Instance {
    pub name: String,
    pub host: String,
    pub port: u16,
}

impl Instance {
    pub fn new(name: String, host: String, port: u16) -> (r: Instance)
        ensures
            r.name@ == name@,
            r.host@ == host@,
            r.port == port,
    {
        Instance { name, host, port }
    }
}

/// The default fleet against which the driver runs: a single local node.
pub fn setup_instances() -> (r: Vec<Instance>)
    ensures
        r@.len() == 1,
        r@[0].name@ == "bbchain1"@,
        r@[0].host@ == "localhost"@,
        r@[0].port == 8080,
{
    let mut instances: Vec<Instance> = Vec::new();
    let instance1 = Instance::new("bbchain1".to_owned(), "localhost".to_owned(), 8080);
    instances.push(instance1);
    instances
}

} // verus!
