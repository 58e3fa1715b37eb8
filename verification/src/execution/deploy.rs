//! CREATE2 deployments through the deterministic deployment proxy.
use vstd::prelude::*;
use vstd::string::*;
use crate::abi::{
    argument_mismatch_message, encoded_constructor_args, keccak256, keccak256_digest,
    malformed_argument_message, parsed_constructor, AbiConstructor,
};
use crate::actions::DeploymentData;
use crate::errors::{DeployerError, ErrorView};
use crate::execution::arguments::{
    all_resolved_arguments, expect_address, expect_word, expected_address, expected_word,
    reference_views, resolve_arguments, resolve_bytecode, resolved_bytecode,
};
use crate::hexcode::{encode_hex, prefixed_hex_text};
use crate::text::{decimal, decimal_text};
use crate::types::{all_well_formed, value_models, SolType, TypedValue, ValueModel};
use crate::variables::{resolved, VariableResolver};

verus! {

/// The address of the deterministic deployment proxy,
/// `0x4e59b44847b379578588920cA78FbF26c0B4956C`.
pub open spec fn create2_deployer_address() -> Seq<u8> {
    seq![
        0x4eu8,
        0x59u8,
        0xb4u8,
        0x48u8,
        0x47u8,
        0xb3u8,
        0x79u8,
        0x57u8,
        0x85u8,
        0x88u8,
        0x92u8,
        0x0cu8,
        0xa7u8,
        0x8fu8,
        0xbfu8,
        0x26u8,
        0xc0u8,
        0xb4u8,
        0x95u8,
        0x6cu8,
    ]
}

/// The address of the deterministic deployment proxy.
pub fn create2_deployer() -> (address: Vec<u8>)
    ensures
        address@ == create2_deployer_address(),
{
    let address = vec![
        0x4eu8,
        0x59u8,
        0xb4u8,
        0x48u8,
        0x47u8,
        0xb3u8,
        0x79u8,
        0x57u8,
        0x85u8,
        0x88u8,
        0x92u8,
        0x0cu8,
        0xa7u8,
        0x8fu8,
        0xbfu8,
        0x26u8,
        0xc0u8,
        0xb4u8,
        0x95u8,
        0x6cu8,
    ];
    assert(address@ =~= create2_deployer_address());
    address
}

/// What is hashed for a CREATE2 address: the byte `0xff`, the deployer, the
/// salt, and the digest of the initcode.
pub open spec fn create2_preimage(deployer: Seq<u8>, salt: Seq<u8>, initcode: Seq<u8>) -> Seq<u8> {
    seq![0xffu8] + deployer + salt + keccak256_digest(initcode)
}

/// The CREATE2 address: the last 20 of the 32 bytes of the digest of the
/// preimage.
pub open spec fn create2_address(deployer: Seq<u8>, salt: Seq<u8>, initcode: Seq<u8>) -> Seq<u8> {
    let digest = keccak256_digest(create2_preimage(deployer, salt, initcode));
    Seq::new(20, |i: int| digest[12 + i])
}

/// Thirty-two zero bytes: the transaction hash of a deployment that sent no
/// transaction.
pub open spec fn zero_hash() -> Seq<u8> {
    Seq::new(32, |i: int| 0u8)
}

/// The text of the error for a deployment that would not land at the
/// declared address.
pub open spec fn address_mismatch_message(expected: Seq<u8>, computed: Seq<u8>) -> Seq<char> {
    "address mismatch: expected "@ + prefixed_hex_text(expected) + ", computed "@
        + prefixed_hex_text(computed)
}

/// The text of the error for a deployment whose transaction reverted.
pub open spec fn deployment_reverted_message() -> Seq<char> {
    "tx reverted"@
}

/// A transaction, or a call, to be handed to the chain.
#[derive(Debug, PartialEq, Eq)]
pub struct TransactionRequest {
    /// The 20 bytes of the address called.
    pub to: Vec<u8>,
    /// The calldata.
    pub input: Vec<u8>,
    /// The wei sent along, as a 32-byte big-endian word, where any is sent.
    pub value: Option<Vec<u8>>,
}

/// The mathematical value of a `TransactionRequest`.
pub struct RequestModel {
    pub to: Seq<u8>,
    pub input: Seq<u8>,
    pub value: Option<Seq<u8>>,
}

impl View for TransactionRequest {
    type V = RequestModel;

    open spec fn view(&self) -> RequestModel {
        RequestModel {
            to: self.to@,
            input: self.input@,
            value: match self.value {
                Some(word) => Some(word@),
                None => None,
            },
        }
    }
}

/// The transaction that deploys through the proxy: to the proxy, with the
/// salt followed by the initcode as calldata, and no value.
pub open spec fn create2_transaction(deployer: Seq<u8>, salt: Seq<u8>, initcode: Seq<u8>) -> RequestModel {
    RequestModel { to: deployer, input: salt + initcode, value: None }
}

/// A deployment that has been resolved and checked: where the contract will
/// land, and what is sent to get it there.
#[derive(Debug, PartialEq, Eq)]
pub struct DeploymentPlan {
    pub address: Vec<u8>,
    pub salt: Vec<u8>,
    pub initcode: Vec<u8>,
}

/// The mathematical value of a `DeploymentPlan`.
pub struct PlanModel {
    pub address: Seq<u8>,
    pub salt: Seq<u8>,
    pub initcode: Seq<u8>,
}

impl View for DeploymentPlan {
    type V = PlanModel;

    open spec fn view(&self) -> PlanModel {
        PlanModel { address: self.address@, salt: self.salt@, initcode: self.initcode@ }
    }
}

/// What a plan gives as a mathematical value.
pub open spec fn plan_model(result: Result<DeploymentPlan, DeployerError>) -> Result<
    PlanModel,
    ErrorView,
> {
    match result {
        Ok(plan) => Ok(plan@),
        Err(e) => Err(e@),
    }
}

/// The plan for bytecode and arguments that are resolved: the initcode is
/// the bytecode followed by the encoded arguments, and the address that
/// CREATE2 gives must be the declared one.
pub open spec fn checked_plan(
    expected: Seq<u8>,
    salt: Seq<u8>,
    bytecode: Seq<u8>,
    encoded_args: Seq<u8>,
) -> Result<PlanModel, ErrorView> {
    let initcode = bytecode + encoded_args;
    let computed = create2_address(create2_deployer_address(), salt, initcode);
    if computed == expected {
        Ok(PlanModel { address: computed, salt, initcode })
    } else {
        Err(ErrorView::DeploymentFailed(address_mismatch_message(expected, computed)))
    }
}

/// The plan of a deployment: the address, the salt, the bytecode and the
/// arguments are resolved in this order, and the first failure is the
/// result.
pub open spec fn planned_deployment<R: VariableResolver>(data: &DeploymentData, resolver: &R) -> Result<
    PlanModel,
    ErrorView,
> {
    match expected_address(resolved(data.address@, "address"@, resolver)) {
        Err(e) => Err(e),
        Ok(expected) => match expected_word(resolved(data.salt@, "bytes32"@, resolver)) {
            Err(e) => Err(e),
            Ok(salt) => match resolved_bytecode(data.bytecode@, resolver) {
                Err(e) => Err(e),
                Ok(bytecode) => match parsed_constructor(data.constructor_abi_item@) {
                    None => Err(ErrorView::AbiParsing(data.constructor_abi_item@)),
                    Some(inputs) => match all_resolved_arguments(
                        reference_views(data.constructor_args@),
                        inputs,
                        resolver,
                    ) {
                        Err(e) => Err(e),
                        Ok(args) => if !all_well_formed(args) {
                            Err(ErrorView::Execution(malformed_argument_message()))
                        } else {
                            match encoded_constructor_args(data.constructor_abi_item@, args) {
                                None => Err(ErrorView::Execution(argument_mismatch_message())),
                                Some(encoded) => checked_plan(expected, salt, bytecode, encoded),
                            }
                        },
                    },
                },
            },
        },
    }
}

/// A deployment that succeeds lands at the address that the configuration
/// declares.
pub proof fn lemma_planned_address_is_declared<R: VariableResolver>(
    data: &DeploymentData,
    resolver: &R,
)
    requires
        planned_deployment(data, resolver) is Ok,
    ensures
        expected_address(resolved(data.address@, "address"@, resolver)) == Ok::<Seq<u8>, ErrorView>(
            planned_deployment(data, resolver)->Ok_0.address,
        ),
        planned_deployment(data, resolver)->Ok_0.address == create2_address(
            create2_deployer_address(),
            planned_deployment(data, resolver)->Ok_0.salt,
            planned_deployment(data, resolver)->Ok_0.initcode,
        ),
        planned_deployment(data, resolver)->Ok_0.address.len() == 20,
{
}

/// Tells whether two lists of bytes are equal.
pub fn same_bytes(a: &Vec<u8>, b: &Vec<u8>) -> (same: bool)
    ensures
        same == (a@ == b@),
{
    if a.len() != b.len() {
        return false;
    }
    let mut i: usize = 0;
    while i < a.len()
        invariant
            i <= a@.len(),
            a@.len() == b@.len(),
            forall|j: int| 0 <= j < i ==> a@[j] == b@[j],
        decreases a@.len() - i,
    {
        if a[i] != b[i] {
            return false;
        }
        i += 1;
    }
    assert(a@ =~= b@);
    true
}

/// Appends the bytes of `tail` to `bytes`.
pub fn append_bytes(bytes: &mut Vec<u8>, tail: &Vec<u8>)
    ensures
        final(bytes)@ == old(bytes)@ + tail@,
{
    let mut i: usize = 0;
    assert(bytes@ =~= old(bytes)@ + tail@.subrange(0, 0));
    while i < tail.len()
        invariant
            i <= tail@.len(),
            bytes@ == old(bytes)@ + tail@.subrange(0, i as int),
        decreases tail@.len() - i,
    {
        bytes.push(tail[i]);
        assert(bytes@ =~= old(bytes)@ + tail@.subrange(0, i + 1));
        i += 1;
    }
    assert(tail@.subrange(0, i as int) =~= tail@);
}

/// The text of the error for arguments that do not match the inputs of
/// the constructor in number.
pub open spec fn constructor_count_message(args: nat, inputs: nat) -> Seq<char> {
    "Constructor args length ("@ + decimal(args) + ") doesn't match ABI inputs length ("@
        + decimal(inputs) + ")"@
}

/// The text of the error for arguments to a contract without a constructor.
pub open spec fn no_constructor_message() -> Seq<char> {
    "Constructor args provided but contract has no constructor"@
}

/// The initcode of a contract: its bytecode, followed by the encoded
/// arguments of its constructor where it has one.
pub open spec fn initcode_of(
    constructor: Option<(Seq<char>, nat)>,
    bytecode: Seq<u8>,
    args: Seq<ValueModel>,
) -> Result<Seq<u8>, ErrorView> {
    match constructor {
        Some((signature, inputs)) => if args.len() != inputs {
            Err(ErrorView::Config(constructor_count_message(args.len(), inputs)))
        } else if !all_well_formed(args) {
            Err(ErrorView::Execution(malformed_argument_message()))
        } else {
            match encoded_constructor_args(signature, args) {
                Some(encoded) => Ok(bytecode + encoded),
                None => Err(ErrorView::Execution(argument_mismatch_message())),
            }
        },
        None => if args.len() > 0 {
            Err(ErrorView::Config(no_constructor_message()))
        } else {
            Ok(bytecode)
        },
    }
}

/// Builds the initcode of a contract from its bytecode and the arguments of
/// its constructor.
///
/// Fails with `Config` where the arguments do not match the inputs of the
/// constructor in number, and where there are arguments and no
/// constructor; with `Execution` where the arguments cannot be encoded.
pub fn generate_initcode(
    constructor: Option<&AbiConstructor>,
    bytecode: Vec<u8>,
    constructor_args: &Vec<TypedValue>,
) -> (result: Result<Vec<u8>, DeployerError>)
    ensures
        crate::execution::arguments::bytes_model(result) == initcode_of(
            match constructor {
                Some(c) => Some((c.signature@, c.inputs@.len())),
                None => None,
            },
            bytecode@,
            value_models(constructor_args@),
        ),
{
    let mut initcode = bytecode;
    match constructor {
        Some(c) => {
            if constructor_args.len() != c.inputs.len() {
                let message = String::from_str("Constructor args length (").concat(
                    decimal_text(constructor_args.len()).as_str(),
                ).concat(") doesn't match ABI inputs length (").concat(
                    decimal_text(c.inputs.len()).as_str(),
                ).concat(")");
                assert(message@ =~= constructor_count_message(
                    constructor_args@.len(),
                    c.inputs@.len(),
                ));
                return Err(DeployerError::Config(message));
            }
            match c.encode_input(constructor_args) {
                Ok(encoded) => {
                    append_bytes(&mut initcode, &encoded);
                    Ok(initcode)
                },
                Err(e) => Err(e),
            }
        },
        None => {
            if constructor_args.len() > 0 {
                return Err(
                    DeployerError::Config(
                        String::from_str(
                            "Constructor args provided but contract has no constructor",
                        ),
                    ),
                );
            }
            Ok(initcode)
        },
    }
}

/// What the chain is asked, or told, once the code at the planned address
/// is known.
#[derive(Debug, PartialEq, Eq)]
pub enum DeploymentStep {
    /// The contract is there already: nothing is sent.
    AlreadyDeployed { address: Vec<u8>, transaction_hash: Vec<u8> },
    /// The transaction to send.
    Submit(TransactionRequest),
}

/// Deploys contracts with CREATE2.
#[derive(Debug, PartialEq, Eq)]
pub struct DeploymentExecutor {}

impl DeploymentExecutor {
    pub fn new() -> (executor: DeploymentExecutor) {
        DeploymentExecutor {  }
    }

    /// The address at which CREATE2 puts a contract.
    pub fn calculate_create2_address(&self, deployer: &Vec<u8>, salt: &Vec<u8>, initcode: &Vec<u8>) -> (address:
        Vec<u8>)
        ensures
            address@ == create2_address(deployer@, salt@, initcode@),
            address@.len() == 20,
    {
        let initcode_hash = keccak256(initcode);
        let mut data: Vec<u8> = Vec::new();
        data.push(0xffu8);
        append_bytes(&mut data, deployer);
        append_bytes(&mut data, salt);
        append_bytes(&mut data, &initcode_hash);
        assert(data@ =~= create2_preimage(deployer@, salt@, initcode@));
        let hash = keccak256(&data);
        let mut address: Vec<u8> = Vec::new();
        let mut i: usize = 12;
        assert(address@ =~= hash@.subrange(12, 12));
        while i < 32
            invariant
                12 <= i <= 32,
                hash@.len() == 32,
                address@ == hash@.subrange(12, i as int),
            decreases 32 - i,
        {
            address.push(hash[i]);
            assert(address@ =~= hash@.subrange(12, i + 1));
            i += 1;
        }
        address
    }

    /// The transaction that deploys through the proxy.
    pub fn build_create2_transaction(&self, deployer: Vec<u8>, salt: &Vec<u8>, initcode: &Vec<u8>) -> (transaction:
        TransactionRequest)
        ensures
            transaction@ == create2_transaction(deployer@, salt@, initcode@),
    {
        let mut calldata: Vec<u8> = Vec::new();
        append_bytes(&mut calldata, salt);
        append_bytes(&mut calldata, initcode);
        assert(calldata@ =~= salt@ + initcode@);
        TransactionRequest { to: deployer, input: calldata, value: None }
    }

    /// Plans a deployment: resolves the declared address, the salt, the
    /// bytecode and the constructor's arguments, builds the initcode, and
    /// computes the CREATE2 address.
    ///
    /// Fails with `DeploymentFailed` where that address is not the declared
    /// one, and with the failure of whatever could not be resolved, parsed
    /// or encoded before. The caller then asks the chain for the code at the
    /// planned address and goes on with `on_code`.
    pub fn deploy<R: VariableResolver>(&self, data: &DeploymentData, resolver: &R) -> (result:
        Result<DeploymentPlan, DeployerError>)
        ensures
            plan_model(result) == planned_deployment(data, resolver),
    {
        let expected = match expect_address(data.address.resolve(SolType::address(), resolver)) {
            Ok(bytes) => bytes,
            Err(e) => {
                return Err(e);
            },
        };
        let salt = match expect_word(data.salt.resolve(SolType::bytes32(), resolver)) {
            Ok(word) => word,
            Err(e) => {
                return Err(e);
            },
        };
        let bytecode = match resolve_bytecode(&data.bytecode, resolver) {
            Ok(bytes) => bytes,
            Err(e) => {
                return Err(e);
            },
        };
        let constructor = match AbiConstructor::parse(data.constructor_abi_item.as_str()) {
            Ok(constructor) => constructor,
            Err(e) => {
                return Err(e);
            },
        };
        let args = match resolve_arguments(&data.constructor_args, &constructor.inputs, resolver) {
            Ok(args) => args,
            Err(e) => {
                return Err(e);
            },
        };
        let encoded_args = match constructor.encode_input(&args) {
            Ok(bytes) => bytes,
            Err(e) => {
                return Err(e);
            },
        };
        let mut initcode = bytecode;
        append_bytes(&mut initcode, &encoded_args);
        let address = self.calculate_create2_address(&create2_deployer(), &salt, &initcode);
        if !same_bytes(&address, &expected) {
            proof {
                reveal_strlit("address mismatch: expected ");
                reveal_strlit(", computed ");
            }
            let message = String::from_str("address mismatch: expected ").concat(
                encode_hex(&expected).as_str(),
            ).concat(", computed ").concat(encode_hex(&address).as_str());
            assert(message@ =~= address_mismatch_message(expected@, address@));
            return Err(DeployerError::DeploymentFailed(message));
        }
        Ok(DeploymentPlan { address, salt, initcode })
    }

    /// Decides what follows once the code at the planned address is known.
    /// Where there is code, the contract counts as deployed, at the planned
    /// address and with a transaction hash of zeros, and nothing is sent.
    /// Where there is none, the deployment transaction is to be sent.
    pub fn on_code(&self, plan: &DeploymentPlan, code: &Vec<u8>) -> (step: DeploymentStep)
        ensures
            code@.len() > 0 ==> (match step {
                DeploymentStep::AlreadyDeployed { address, transaction_hash } => address@
                    == plan.address@ && transaction_hash@ == zero_hash(),
                DeploymentStep::Submit(_) => false,
            }),
            code@.len() == 0 ==> (match step {
                DeploymentStep::AlreadyDeployed { .. } => false,
                DeploymentStep::Submit(transaction) => transaction@ == create2_transaction(
                    create2_deployer_address(),
                    plan.salt@,
                    plan.initcode@,
                ),
            }),
    {
        if code.len() > 0 {
            let mut transaction_hash: Vec<u8> = Vec::new();
            let mut i: usize = 0;
            while i < 32
                invariant
                    i <= 32,
                    transaction_hash@.len() == i,
                    forall|j: int| 0 <= j < i ==> transaction_hash@[j] == 0u8,
                decreases 32 - i,
            {
                transaction_hash.push(0u8);
                i += 1;
            }
            assert(transaction_hash@ =~= zero_hash());
            DeploymentStep::AlreadyDeployed {
                address: crate::types::copy_bytes(&plan.address),
                transaction_hash,
            }
        } else {
            DeploymentStep::Submit(
                self.build_create2_transaction(create2_deployer(), &plan.salt, &plan.initcode),
            )
        }
    }

    /// Judges the receipt of the deployment transaction: a receipt without
    /// success fails with `DeploymentFailed("tx reverted")`; otherwise the
    /// contract is deployed at the planned address by that transaction.
    pub fn on_receipt(&self, plan: &DeploymentPlan, status: bool, transaction_hash: Vec<u8>) -> (result:
        Result<(Vec<u8>, Vec<u8>), DeployerError>)
        ensures
            match result {
                Ok(deployed) => status && deployed.0@ == plan.address@ && deployed.1@
                    == transaction_hash@,
                Err(e) => !status && e@ == ErrorView::DeploymentFailed(
                    deployment_reverted_message(),
                ),
            },
    {
        if !status {
            return Err(DeployerError::DeploymentFailed(String::from_str("tx reverted")));
        }
        Ok((crate::types::copy_bytes(&plan.address), transaction_hash))
    }
}

} // verus!
