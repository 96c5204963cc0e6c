# pcl_seal

An enclave whose code is protected needs a key to unseal that code. This library holds the
decisions by which an enclave obtains such a key and hands it out:

1. **Attestation** (`attestation`, `ias`, `encoding`, `digest`, `cert`, `hex`, `identity`): a
   fresh public key is put into a report, the platform's quoting enclave makes a quote of it, the quote is
   checked against the nonce and the platform, and the attestation service signs a report on
   it.
2. **Provisioning** (`provision`): the signed report goes into a certificate; the key server
   that accepts it sends a key, which is acknowledged and stored.
3. **Sealing** (`seal`): the stored key is read back, sealed to the platform and written to the
   caller's buffer.

Each of the three is a machine: its phase says what has to be done next, and `step` takes what
came of it. `src/` is verified with Verus; the modules whose names end in `_laws` state what
holds of whole runs. `outside` lists what is relied on without proof. `app/` performs the calls
to the platform, the network and the disk.

The functions of the SDK that make a key pair, create and verify a report and compute a digest
exist only inside an enclave, so the tests hand what came of them to the machines.
