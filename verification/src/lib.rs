pub mod answer_laws;
pub mod application_crypto;
pub mod asking_laws;
pub mod authority_admission;
pub mod authority_bundle;
pub mod authority_laws;
pub mod authority_parts;
pub mod bytes;
pub mod codec_laws;
pub mod committee_laws;
pub mod committee_proof;
pub mod complete_quote;
pub mod coordination_laws;
pub mod coordinator;
pub mod dealing_laws;
pub mod decimal;
pub mod deployment_laws;
pub mod digest;
pub mod digest_map;
pub mod execution_laws;
pub mod fields;
pub mod group;
pub mod issue_laws;
pub mod job_laws;
pub mod json;
pub mod lines;
pub mod local_files;
pub mod mandate_laws;
pub mod message_laws;
pub mod numbers;
pub mod oracle;
pub mod order;
pub mod order_laws;
pub mod party_laws;
pub mod paths;
pub mod pool_laws;
pub mod pretrade;
pub mod pretrade_wire;
pub mod product_execution;
pub mod product_settlement;
pub mod proof_answers;
pub mod proof_authorize;
pub mod proof_codec;
pub mod proof_config;
pub mod proof_dkg;
pub mod proof_durable;
pub mod proof_evidence;
pub mod proof_frost;
pub mod proof_keygen;
pub mod proof_laws;
pub mod proof_lifecycle;
pub mod proof_mandate;
pub mod proof_params;
pub mod proof_peers;
pub mod proof_quote_rounds;
pub mod proof_restore;
pub mod proof_rounds;
pub mod proof_service;
pub mod proof_settle;
pub mod proof_start;
pub mod proof_state;
pub mod quote_codec;
pub mod quote_committee;
pub mod quote_issuer;
pub mod quote_laws;
pub mod quote_messages;
pub mod quote_request_laws;
pub mod quote_wire;
pub mod record_laws;
pub mod relay;
pub mod relay_laws;
pub mod request_laws;
pub mod resident_circuit;
pub mod resident_config;
pub mod resident_laws;
pub mod resident_mpc;
pub mod resident_quote;
pub mod resident_run;
pub mod resident_state;
pub mod resident_store;
pub mod restore_laws;
pub mod rfq_frame;
pub mod roles;
pub mod roles_laws;
pub mod round_laws;
pub mod rounds;
pub mod run_laws;
pub mod sealed_file;
pub mod sealer;
pub mod sealing_laws;
pub mod service_laws;
pub mod settlement;
pub mod settlement_handoff;
pub mod settlement_proofs;
pub mod settlement_run;
pub mod sharing;
pub mod signing_laws;
pub mod slot;
pub mod sorting;
pub mod text;
pub mod text_laws;
pub mod trade_laws;
pub mod wire;
