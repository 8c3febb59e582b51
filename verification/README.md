# rover_control

Control logic of a radio-driven tracked rover and its hand-held remote,
verified with Verus.

- `src/` — the verified library:
  - `joystick` — stick axis normalisation (dead zone, scaling, clamping) and
    centre calibration;
  - `drive` — duty cycles of the two-channel motor driver and arcade mixing;
  - `transmit` — the state machine of one acknowledged transmission;
  - `radio` — the command protocol and the rover's receiving loop;
  - `package` — the packet protocol and the outcome of a read;
  - `rover` — decisions of the rover's receiving and motor tasks;
  - `remote` — the remote's send decision and status screen text.
- `app/` — the hardware side: nRF24 driver calls, postcard encoding of the
  protocol types, the OLED screen, the PWM channels and the async tasks.
- `tests/` — tests of the library on concrete values.
